//! The Herdr configuration document, held as a `toml_edit::DocumentMut` so
//! that comments and layout survive an edit. The plugin reads and writes only
//! the `[keys]` table; what it holds there is modelled by `keys_entries`, and
//! each edit is named by the document it leaves, so that what the plugin
//! writes back is the parsed document with only those edits made.
//!
//! A document is taken here by what it holds and how it renders. The seeds of
//! the hash tables inside a `DocumentMut` (the `IndexMap`s of its tables) are
//! no part of that: toml_edit walks those maps in insertion order, and no name
//! below depends on a seed.

use vstd::prelude::*;
use toml_edit::{ArrayOfTables, DocumentMut, Item, Table, TomlError, value};
use crate::scope::opt_string_view;

verus! {

#[verifier::external_type_specification]
#[verifier::external_body]
pub struct ExDocumentMut(toml_edit::DocumentMut);

#[verifier::external_type_specification]
#[verifier::external_body]
pub struct ExArrayOfTables(toml_edit::ArrayOfTables);

#[verifier::external_type_specification]
#[verifier::external_body]
pub struct ExTomlError(toml_edit::TomlError);

/// The `key` entry of a `[[keys.command]]` table.
pub ghost enum KeyItemView {
    Absent,
    Text(Seq<char>),
    List(Seq<Option<Seq<char>>>),
    Other,
}

/// What the plugin reads of a `[[keys.command]]` table: the string values of
/// its `command`, `type` and `description` entries, and its `key` entry.
pub ghost struct CommandTableView {
    pub command: Option<Seq<char>>,
    pub key: KeyItemView,
    pub kind: Option<Seq<char>>,
    pub description: Option<Seq<char>>,
}

/// An entry of the `[keys]` table: a string, an array of tables, or anything else.
pub ghost enum KeysEntry {
    Text(Seq<char>),
    Tables(Seq<CommandTableView>),
    Other,
}

/// The entries of the document's `[keys]` table; `None` when the document has
/// no `keys` entry or it is not a standard table.
pub uninterp spec fn keys_entries(doc: DocumentMut) -> Option<Map<Seq<char>, KeysEntry>>;

/// The text the document renders to.
pub uninterp spec fn document_text(doc: DocumentMut) -> Seq<char>;

/// What each table of an array of tables holds, in order.
pub uninterp spec fn command_tables(tables: ArrayOfTables) -> Seq<CommandTableView>;

/// The document that `text` parses to; `None` when the text is not TOML.
pub uninterp spec fn parsed_document(text: Seq<char>) -> Option<DocumentMut>;

/// The document with its `keys` entry replaced by an empty standard table.
pub uninterp spec fn keys_reset(doc: DocumentMut) -> DocumentMut;

/// The document with `[keys].field` set to the string `text`.
pub uninterp spec fn keys_text_set(doc: DocumentMut, field: Seq<char>, text: Seq<char>) -> DocumentMut;

/// The document with `[keys].command` set to the array of tables `tables`.
pub uninterp spec fn keys_commands_set(doc: DocumentMut, tables: ArrayOfTables) -> DocumentMut;

/// The array of tables with a copy of the `index`-th `[[keys.command]]` table
/// of `doc` appended.
pub uninterp spec fn tables_with_copy(tables: ArrayOfTables, doc: DocumentMut, index: int) -> ArrayOfTables;

/// The array of tables with a new table appended that holds the string entries
/// `key`, `type`, `command` and `description`, in that order.
pub uninterp spec fn tables_with_binding(
    tables: ArrayOfTables,
    key: Seq<char>,
    kind: Seq<char>,
    command: Seq<char>,
    description: Seq<char>,
) -> ArrayOfTables;

/// The `[keys]` entries of the document parsed from `text`; `None` when the
/// text is not TOML.
pub open spec fn parsed_keys_entries(text: Seq<char>) -> Option<Option<Map<Seq<char>, KeysEntry>>> {
    match parsed_document(text) {
        Some(doc) => Some(keys_entries(doc)),
        None => None,
    }
}

/// The string value of `[keys].field`, if there is one.
pub open spec fn keys_text_of(entries: Option<Map<Seq<char>, KeysEntry>>, field: Seq<char>) -> Option<Seq<char>> {
    match entries {
        Some(m) => if m.contains_key(field) {
            match m[field] {
                KeysEntry::Text(t) => Some(t),
                _ => None,
            }
        } else {
            None
        },
        None => None,
    }
}

/// The `[[keys.command]]` tables, none when there are none.
pub open spec fn commands_of(entries: Option<Map<Seq<char>, KeysEntry>>) -> Seq<CommandTableView> {
    match entries {
        Some(m) => if m.contains_key("command"@) {
            match m["command"@] {
                KeysEntry::Tables(ts) => ts,
                _ => Seq::empty(),
            }
        } else {
            Seq::empty()
        },
        None => Seq::empty(),
    }
}

/// The `key` entry of a command table, as plain values.
pub enum KeyValue {
    Absent,
    Text(String),
    List(Vec<Option<String>>),
    Other,
}

/// What the plugin reads of a command table.
pub struct CommandEntry {
    pub command: Option<String>,
    pub key: KeyValue,
    pub kind: Option<String>,
    pub description: Option<String>,
}

pub open spec fn opt_strings_view(values: Seq<Option<String>>) -> Seq<Option<Seq<char>>> {
    values.map_values(|v: Option<String>| opt_string_view(v))
}

impl View for KeyValue {
    type V = KeyItemView;

    open spec fn view(&self) -> KeyItemView {
        match self {
            KeyValue::Absent => KeyItemView::Absent,
            KeyValue::Text(t) => KeyItemView::Text(t@),
            KeyValue::List(values) => KeyItemView::List(opt_strings_view(values@)),
            KeyValue::Other => KeyItemView::Other,
        }
    }
}

impl View for CommandEntry {
    type V = CommandTableView;

    open spec fn view(&self) -> CommandTableView {
        CommandTableView {
            command: opt_string_view(self.command),
            key: self.key@,
            kind: opt_string_view(self.kind),
            description: opt_string_view(self.description),
        }
    }
}

/// Parses a TOML document.
///
/// Trusted: calls `<toml_edit::DocumentMut as FromStr>::from_str`. Claims that
/// it succeeds exactly on the texts `parsed_document` accepts, and returns the
/// document that name gives.
#[verifier::external_body]
pub(crate) fn parse_document(text: &str) -> (doc: Result<DocumentMut, TomlError>)
    ensures
        doc is Ok <==> parsed_document(text@) is Some,
        doc matches Ok(d) ==> parsed_document(text@) == Some(d),
{
    text.parse::<DocumentMut>()
}

/// Whether the document has a standard `[keys]` table.
///
/// Trusted: calls `Table::get` on the root table and `Item::is_table`.
#[verifier::external_body]
pub(crate) fn keys_table_present(doc: &DocumentMut) -> (present: bool)
    ensures
        present == (keys_entries(*doc) is Some),
{
    doc.get("keys").map_or(false, Item::is_table)
}

/// The string value of `[keys].field`.
///
/// Trusted: calls `Table::get`, `Item::as_table` and `Item::as_str`.
#[verifier::external_body]
pub(crate) fn keys_text(doc: &DocumentMut, field: &str) -> (text: Option<String>)
    ensures
        opt_string_view(text) == keys_text_of(keys_entries(*doc), field@),
{
    Some(doc.get("keys")?.as_table()?.get(field)?.as_str()?.to_owned())
}

/// The number of `[[keys.command]]` tables.
///
/// Trusted: calls `Table::get`, `Item::as_table`, `Item::as_array_of_tables`
/// and `ArrayOfTables::len`.
#[verifier::external_body]
pub(crate) fn command_table_count(doc: &DocumentMut) -> (count: usize)
    ensures
        count == commands_of(keys_entries(*doc)).len(),
{
    let keys = doc.get("keys").and_then(Item::as_table);
    keys.and_then(|k| k.get("command")).and_then(Item::as_array_of_tables).map_or(0, ArrayOfTables::len)
}

/// The string entries of a command table that the plugin reads.
pub open spec fn is_table_text_field(field: Seq<char>) -> bool {
    field == "command"@ || field == "type"@ || field == "description"@
}

/// The string value of the entry `field` of a command table.
pub open spec fn table_text_of(t: CommandTableView, field: Seq<char>) -> Option<Seq<char>> {
    if field == "command"@ {
        t.command
    } else if field == "type"@ {
        t.kind
    } else {
        t.description
    }
}

/// The string value of the entry `field` of the `index`-th `[[keys.command]]`
/// table.
///
/// Trusted: reaches the table through `Index`, `Item::as_array_of_tables` and
/// `ArrayOfTables::get`, and reads the entry with `Table::get` and
/// `Item::as_str`.
#[verifier::external_body]
fn command_table_text(doc: &DocumentMut, index: usize, field: &str) -> (text: Option<String>)
    requires
        index < commands_of(keys_entries(*doc)).len(),
        is_table_text_field(field@),
    ensures
        opt_string_view(text) == table_text_of(commands_of(keys_entries(*doc))[index as int], field@),
{
    let table = doc["keys"]["command"].as_array_of_tables().unwrap().get(index).unwrap();
    table.get(field).and_then(Item::as_str).map(str::to_owned)
}

/// The `key` entry of the `index`-th `[[keys.command]]` table.
///
/// Trusted: reaches the table as `command_table_text` does, and reads the entry
/// with `Table::get`, `Item::as_str`, `Item::as_array` and `Value::as_str`,
/// converting each to a plain value.
#[verifier::external_body]
fn command_table_key(doc: &DocumentMut, index: usize) -> (key: KeyValue)
    requires
        index < commands_of(keys_entries(*doc)).len(),
    ensures
        key@ == commands_of(keys_entries(*doc))[index as int].key,
{
    let table = doc["keys"]["command"].as_array_of_tables().unwrap().get(index).unwrap();
    match table.get("key") {
        None => KeyValue::Absent,
        Some(item) => match (item.as_str(), item.as_array()) {
            (Some(s), _) => KeyValue::Text(s.to_owned()),
            (None, Some(a)) => KeyValue::List(a.iter().map(|v| v.as_str().map(str::to_owned)).collect()),
            (None, None) => KeyValue::Other,
        },
    }
}

/// What the plugin reads of the `index`-th `[[keys.command]]` table.
pub(crate) fn command_table_entry(doc: &DocumentMut, index: usize) -> (entry: CommandEntry)
    requires
        index < commands_of(keys_entries(*doc)).len(),
    ensures
        entry@ == commands_of(keys_entries(*doc))[index as int],
{
    proof {
        reveal_strlit("command");
        reveal_strlit("type");
        reveal_strlit("description");
        assert("type"@ != "command"@) by { assert("type"@.len() != "command"@.len()); }
        assert("description"@ != "command"@) by { assert("description"@.len() != "command"@.len()); }
        assert("description"@ != "type"@) by { assert("description"@.len() != "type"@.len()); }
    }
    let command = command_table_text(doc, index, "command");
    let kind = command_table_text(doc, index, "type");
    let description = command_table_text(doc, index, "description");
    let key = command_table_key(doc, index);
    let entry = CommandEntry { command, key, kind, description };
    assert(entry@ =~= commands_of(keys_entries(*doc))[index as int]);
    entry
}

/// Replaces the document's `keys` entry by an empty standard table.
///
/// Trusted: assigns `Item::Table(Table::new())` through `DocumentMut`'s
/// `IndexMut`. Claims that the result is the document `keys_reset` names and
/// that its `[keys]` table is empty.
#[verifier::external_body]
pub(crate) fn reset_keys_table(doc: &mut DocumentMut)
    ensures
        *final(doc) == keys_reset(*old(doc)),
        keys_entries(*final(doc)) == Some(Map::<Seq<char>, KeysEntry>::empty()),
{
    doc["keys"] = Item::Table(Table::new());
}

/// Sets `[keys].field` to a string.
///
/// Trusted: assigns `toml_edit::value(text)` to the entry through `Table`'s
/// `IndexMut`. Claims that the result is the document `keys_text_set` names,
/// and that the other entries of `[keys]` are left as they were.
#[verifier::external_body]
pub(crate) fn set_keys_text(doc: &mut DocumentMut, field: &str, text: &str)
    requires
        keys_entries(*old(doc)) is Some,
    ensures
        *final(doc) == keys_text_set(*old(doc), field@, text@),
        keys_entries(*final(doc)) == Some(keys_entries(*old(doc))->0.insert(field@, KeysEntry::Text(text@))),
{
    if let Some(keys) = doc["keys"].as_table_mut() {
        keys[field] = value(text);
    }
}

/// Sets `[keys].command` to an array of tables.
///
/// Trusted: assigns `Item::ArrayOfTables(tables)` through `Table`'s
/// `IndexMut`. Claims that the result is the document `keys_commands_set`
/// names, and that the other entries of `[keys]` are left as they were.
#[verifier::external_body]
pub(crate) fn set_keys_commands(doc: &mut DocumentMut, tables: ArrayOfTables)
    requires
        keys_entries(*old(doc)) is Some,
    ensures
        *final(doc) == keys_commands_set(*old(doc), tables),
        keys_entries(*final(doc)) == Some(keys_entries(*old(doc))->0.insert("command"@, KeysEntry::Tables(command_tables(tables)))),
{
    if let Some(keys) = doc["keys"].as_table_mut() {
        keys["command"] = Item::ArrayOfTables(tables);
    }
}

/// An empty array of tables.
///
/// Trusted: calls `ArrayOfTables::new`.
#[verifier::external_body]
pub(crate) fn new_command_tables() -> (tables: ArrayOfTables)
    ensures
        command_tables(tables) == Seq::<CommandTableView>::empty(),
{
    ArrayOfTables::new()
}

/// Appends a copy of the `index`-th `[[keys.command]]` table of `doc`.
///
/// Trusted: reaches the table as `command_table_text` does, clones it with
/// `Table::clone` and appends it with `ArrayOfTables::push`. Claims that the
/// result is the array `tables_with_copy` names, whose last table reads as the
/// copied one.
#[verifier::external_body]
pub(crate) fn push_command_copy(tables: &mut ArrayOfTables, doc: &DocumentMut, index: usize)
    requires
        index < commands_of(keys_entries(*doc)).len(),
    ensures
        *final(tables) == tables_with_copy(*old(tables), *doc, index as int),
        command_tables(*final(tables)) == command_tables(*old(tables)).push(commands_of(keys_entries(*doc))[index as int]),
{
    let table = doc["keys"]["command"].as_array_of_tables().unwrap().get(index).unwrap();
    tables.push(table.clone());
}

/// Appends a table with the string entries `key`, `type`, `command` and
/// `description`, in that order.
///
/// Trusted: builds the table with `Table::new` and `toml_edit::value`, and
/// appends it with `ArrayOfTables::push`. Claims that the result is the array
/// `tables_with_binding` names, whose last table reads as the four strings.
#[verifier::external_body]
pub(crate) fn push_command_binding(tables: &mut ArrayOfTables, key: &str, kind: &str, command: &str, description: &str)
    ensures
        *final(tables) == tables_with_binding(*old(tables), key@, kind@, command@, description@),
        command_tables(*final(tables)) == command_tables(*old(tables)).push(
            CommandTableView {
                command: Some(command@),
                key: KeyItemView::Text(key@),
                kind: Some(kind@),
                description: Some(description@),
            },
        ),
{
    let mut table = Table::new();
    table["key"] = value(key);
    table["type"] = value(kind);
    table["command"] = value(command);
    table["description"] = value(description);
    tables.push(table);
}

/// The document as text.
///
/// Trusted: calls `ToString::to_string` through `DocumentMut`'s `Display`.
#[verifier::external_body]
pub(crate) fn render_document(doc: &DocumentMut) -> (text: String)
    ensures
        text@ == document_text(*doc),
{
    doc.to_string()
}

} // verus!
