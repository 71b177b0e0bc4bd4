//! TOML documents: what a document holds, and the operations on it that `toml_edit` performs.
//!
//! Contracts speak of a document's entries and of how each of them is written. The rest of the
//! layout (the order of keys, what stands after the last one) stays inside `toml_edit`.
use crate::text::{keep, kept, opt_view};
use toml_edit::{DocumentMut, Item, Table};
use vstd::prelude::*;

verus! {

/// What one TOML item holds.
pub ghost enum TomlView {
    /// A string.
    Text(Seq<char>),
    /// A boolean.
    Boolean(bool),
    /// An integer.
    Integer(i64),
    /// A standard table.
    Section(Map<Seq<char>, TomlView>),
    /// An inline table.
    Inline(Map<Seq<char>, TomlView>),
    /// A number with a fraction, a date, an array or an array of tables, by its text.
    Other(Seq<char>),
    /// No item at all.
    Missing,
}

/// The entries of a table.
pub type Entries = Map<Seq<char>, TomlView>;

/// How the entries of a table are written: by key, the spelling of the key and of what stands
/// under it, with the spaces and comments that belong to them.
pub type Spellings = Map<Seq<char>, Seq<char>>;

/// `toml_edit::DocumentMut`, a document that keeps its layout while it is edited.
#[verifier::external_type_specification]
#[verifier::external_body]
pub struct ExDocumentMut(toml_edit::DocumentMut);

/// `toml_edit::Table`, a standard table.
#[verifier::external_type_specification]
#[verifier::external_body]
pub struct ExTable(toml_edit::Table);

/// `toml_edit::Item`, whatever stands under a key.
#[verifier::external_type_specification]
#[verifier::external_body]
pub struct ExItem(toml_edit::Item);

/// What the root table of a document holds.
pub uninterp spec fn document_entries(document: DocumentMut) -> Map<Seq<char>, TomlView>;

/// How the entries of a document's root table are written.
pub uninterp spec fn document_spellings(document: DocumentMut) -> Map<Seq<char>, Seq<char>>;

/// How the entries of a table are written.
pub uninterp spec fn table_spellings(table: Table) -> Map<Seq<char>, Seq<char>>;

/// The text a document prints as, layout included.
pub uninterp spec fn document_text(document: DocumentMut) -> Seq<char>;

/// What a table holds.
pub uninterp spec fn table_entries(table: Table) -> Map<Seq<char>, TomlView>;

/// What an item holds.
pub uninterp spec fn item_value(item: Item) -> TomlView;

/// What a text parses to: the root entries and how they are written, or the text of the error.
pub uninterp spec fn read_toml(text: Seq<char>) -> Result<
    (Map<Seq<char>, TomlView>, Map<Seq<char>, Seq<char>>),
    Seq<char>,
>;

/// The root entries of a text, or the text of the error.
pub open spec fn parsed_toml(text: Seq<char>) -> Result<Entries, Seq<char>> {
    match read_toml(text) {
        Ok((entries, _)) => Ok(entries),
        Err(message) => Err(message),
    }
}

/// How the root entries of a text that parses are written.
pub open spec fn spelled(text: Seq<char>) -> Spellings {
    read_toml(text)->Ok_0.1
}

/// The entries of an empty table.
pub open spec fn no_entries() -> Entries {
    Map::empty()
}

/// The entries after `value` was put under `key`; putting nothing there removes the key.
pub open spec fn with_entry(entries: Entries, key: Seq<char>, value: TomlView) -> Entries {
    if value is Missing {
        entries.remove(key)
    } else {
        entries.insert(key, value)
    }
}

/// `str::parse::<DocumentMut>` reads a document. Its outcome is a function of the text alone.
#[verifier::external_body]
pub(crate) fn parse_toml(text: &str) -> (r: Result<DocumentMut, String>)
    ensures
        match read_toml(text@) {
            Ok((entries, spellings)) => r matches Ok(document) && document_entries(document)
                == entries && document_spellings(document) == spellings,
            Err(message) => r matches Err(error) && error@ == message,
        },
{
    text.parse::<DocumentMut>().map_err(|error| error.to_string())
}

/// `DocumentMut::to_string` prints a document with its layout. How the text is made up of the
/// entries and their spellings, and that it parses to them again, is not stated.
#[verifier::external_body]
pub(crate) fn print_toml(document: &DocumentMut) -> (r: String)
    ensures
        r@ == document_text(*document),
{
    document.to_string()
}

/// `DocumentMut::new` makes a document without entries.
pub assume_specification[ DocumentMut::new ]() -> (r: DocumentMut)
    ensures
        document_entries(r) == no_entries(),
;

/// `DocumentMut::clone` copies a document with its layout.
pub assume_specification[ <DocumentMut as Clone>::clone ](document: &DocumentMut) -> (r:
    DocumentMut)
    ensures
        document_entries(r) == document_entries(*document),
        document_spellings(r) == document_spellings(*document),
        document_text(r) == document_text(*document),
;

/// `DocumentMut::as_table` gives the root table.
pub assume_specification[ DocumentMut::as_table ](document: &DocumentMut) -> (r: &Table)
    ensures
        table_entries(*r) == document_entries(*document),
;

/// `DocumentMut::as_table_mut` gives the root table for editing.
pub assume_specification[ DocumentMut::as_table_mut ](document: &mut DocumentMut) -> (r: &mut Table)
    ensures
        table_entries(*r) == document_entries(*old(document)),
        document_entries(*final(document)) == table_entries(*final(r)),
        table_spellings(*r) == document_spellings(*old(document)),
        document_spellings(*final(document)) == table_spellings(*final(r)),
;

/// `Table::new` makes a table without entries.
pub assume_specification[ Table::new ]() -> (r: Table)
    ensures
        table_entries(r) == no_entries(),
;

/// `Table::clone` copies a table.
pub assume_specification[ <Table as Clone>::clone ](table: &Table) -> (r: Table)
    ensures
        table_entries(r) == table_entries(*table),
;

/// `Item::clone` copies an item.
pub assume_specification[ <Item as Clone>::clone ](item: &Item) -> (r: Item)
    ensures
        item_value(r) == item_value(*item),
;

/// `Table::get` looks a key up; a key without an item counts as absent.
pub assume_specification<'a>[ Table::get ](table: &'a Table, key: &str) -> (r: Option<&'a Item>)
    ensures
        match r {
            Some(item) => table_entries(*table).contains_key(key@) && item_value(*item)
                == table_entries(*table)[key@] && !(item_value(*item) is Missing),
            None => !table_entries(*table).contains_key(key@),
        },
;

/// `Table::remove` takes a key and its item out; what stands under other keys stays as written.
pub assume_specification[ Table::remove ](table: &mut Table, key: &str) -> (r: Option<Item>)
    ensures
        table_entries(*final(table)) == table_entries(*old(table)).remove(key@),
        table_spellings(*final(table)).remove(key@) == table_spellings(*old(table)).remove(key@),
;

/// `Table::insert` puts an item under a key and resets the key's own layout; what stands under
/// other keys stays as written.
pub assume_specification[ Table::insert ](table: &mut Table, key: &str, item: Item) -> (r: Option<
    Item,
>)
    ensures
        table_entries(*final(table)) == with_entry(
            table_entries(*old(table)),
            key@,
            item_value(item),
        ),
        table_spellings(*final(table)).remove(key@) == table_spellings(*old(table)).remove(key@),
;

/// `table[key] = item` puts an item under a key and keeps the key's own layout; what stands under
/// other keys stays as written.
#[verifier::external_body]
pub(crate) fn set_entry(table: &mut Table, key: &str, item: Item)
    ensures
        table_entries(*final(table)) == with_entry(
            table_entries(*old(table)),
            key@,
            item_value(item),
        ),
        table_spellings(*final(table)).remove(key@) == table_spellings(*old(table)).remove(key@),
{
    table[key] = item;
}

/// `Table::iter` walks the keys that have an item; each comes once.
#[verifier::external_body]
pub(crate) fn entry_keys(table: &Table) -> (r: Vec<String>)
    ensures
        forall|key: Seq<char>|
            table_entries(*table).contains_key(key) <==> exists|i: int|
                0 <= i < r@.len() && #[trigger] r@[i]@ == key,
        forall|i: int, j: int| 0 <= i < j < r@.len() ==> #[trigger] r@[i]@ != #[trigger] r@[j]@,
{
    table.iter().map(|(key, _)| key.to_string()).collect()
}

/// `Item::as_str` gives the text of a string item.
pub assume_specification[ Item::as_str ](item: &Item) -> (r: Option<&str>)
    ensures
        match item_value(*item) {
            TomlView::Text(text) => r matches Some(found) && found@ == text,
            _ => r is None,
        },
;

/// `Item::as_bool` gives the value of a boolean item.
pub assume_specification[ Item::as_bool ](item: &Item) -> (r: Option<bool>)
    ensures
        match item_value(*item) {
            TomlView::Boolean(value) => r == Some(value),
            _ => r is None,
        },
;

/// `Item::as_integer` gives the value of an integer item.
pub assume_specification[ Item::as_integer ](item: &Item) -> (r: Option<i64>)
    ensures
        match item_value(*item) {
            TomlView::Integer(value) => r == Some(value),
            _ => r is None,
        },
;

/// `Item::as_table` gives a standard table.
pub assume_specification[ Item::as_table ](item: &Item) -> (r: Option<&Table>)
    ensures
        match item_value(*item) {
            TomlView::Section(entries) => r matches Some(table) && table_entries(*table) == entries,
            _ => r is None,
        },
;

/// `toml_edit::value` makes a string item.
#[verifier::external_body]
pub(crate) fn text_item(text: &str) -> (r: Item)
    ensures
        item_value(r) == TomlView::Text(text@),
{
    toml_edit::value(text)
}

/// `toml_edit::value` makes a boolean item.
#[verifier::external_body]
pub(crate) fn boolean_item(value: bool) -> (r: Item)
    ensures
        item_value(r) == TomlView::Boolean(value),
{
    toml_edit::value(value)
}

/// `Item::Table` makes an item of a table.
#[verifier::external_body]
pub(crate) fn table_item(table: Table) -> (r: Item)
    ensures
        item_value(r) == TomlView::Section(table_entries(table)),
{
    Item::Table(table)
}

/// `Value::decor` and `Value::decor_mut`: gives one value the spacing of another. What the item
/// holds does not change.
#[verifier::external_body]
pub(crate) fn spaced_like(item: Item, model: &Item) -> (r: Item)
    ensures
        item_value(r) == item_value(item),
{
    let mut item = item;
    if let (Some(value), Some(old)) = (item.as_value_mut(), model.as_value()) {
        *value.decor_mut() = old.decor().clone();
    }
    item
}

/// The fields of a table, standard or inline.
pub open spec fn fields_of(item: TomlView) -> Option<Entries> {
    match item {
        TomlView::Section(fields) => Some(fields),
        TomlView::Inline(fields) => Some(fields),
        _ => None,
    }
}

/// An item with other fields.
pub open spec fn with_fields(item: TomlView, fields: Entries) -> TomlView {
    match item {
        TomlView::Section(_) => TomlView::Section(fields),
        TomlView::Inline(_) => TomlView::Inline(fields),
        _ => item,
    }
}

/// `Item::is_table_like` tells tables, standard and inline, from everything else.
pub assume_specification[ Item::is_table_like ](item: &Item) -> (r: bool)
    ensures
        r == (fields_of(item_value(*item)) is Some),
;

/// `Item::as_table_like` and `TableLike::iter`: the keys of a table, standard or inline. Every
/// field is among them.
#[verifier::external_body]
pub(crate) fn field_keys(item: &Item) -> (r: Option<Vec<String>>)
    ensures
        match fields_of(item_value(*item)) {
            Some(fields) => r matches Some(keys) && forall|key: Seq<char>|
                fields.contains_key(key) ==> exists|i: int|
                    0 <= i < keys@.len() && #[trigger] keys@[i]@ == key,
            None => r is None,
        },
{
    let table = item.as_table_like()?;
    Some(table.iter().map(|(key, _)| key.to_string()).collect())
}

/// `TableLike::remove` takes a field out of a table, standard or inline.
#[verifier::external_body]
pub(crate) fn drop_field(item: &mut Item, key: &str)
    ensures
        item_value(*final(item)) == match fields_of(item_value(*old(item))) {
            Some(fields) => with_fields(item_value(*old(item)), fields.remove(key@)),
            None => item_value(*old(item)),
        },
{
    if let Some(table) = item.as_table_like_mut() {
        table.remove(key);
    }
}

/// The text under a key, if it holds a string.
pub open spec fn text_entry(entries: Entries, key: Seq<char>) -> Option<Seq<char>> {
    if entries.contains_key(key) {
        match entries[key] {
            TomlView::Text(text) => Some(text),
            _ => None,
        }
    } else {
        None
    }
}

/// The boolean under a key, if it holds one.
pub open spec fn boolean_entry(entries: Entries, key: Seq<char>) -> Option<bool> {
    if entries.contains_key(key) {
        match entries[key] {
            TomlView::Boolean(value) => Some(value),
            _ => None,
        }
    } else {
        None
    }
}

/// The table under a key, if it holds one.
pub open spec fn section_entry(entries: Entries, key: Seq<char>) -> Option<Entries> {
    if entries.contains_key(key) {
        match entries[key] {
            TomlView::Section(section) => Some(section),
            _ => None,
        }
    } else {
        None
    }
}

/// The text under a key.
pub fn get_text(table: &Table, key: &str) -> (r: Option<String>)
    ensures
        opt_view(r) == text_entry(table_entries(*table), key@),
{
    match table.get(key) {
        Some(item) => match item.as_str() {
            Some(text) => Some(text.to_owned()),
            None => None,
        },
        None => None,
    }
}

/// The text under a key, trimmed, unless nothing remains of it.
pub fn get_kept_text(table: &Table, key: &str) -> (r: Option<String>)
    ensures
        opt_view(r) == kept_entry(table_entries(*table), key@),
{
    match get_text(table, key) {
        Some(text) => keep(&text),
        None => None,
    }
}

/// The text under a key, trimmed, unless nothing remains of it.
pub open spec fn kept_entry(entries: Entries, key: Seq<char>) -> Option<Seq<char>> {
    match text_entry(entries, key) {
        Some(text) => kept(text),
        None => None,
    }
}

/// The boolean under a key.
pub fn get_boolean(table: &Table, key: &str) -> (r: Option<bool>)
    ensures
        r == boolean_entry(table_entries(*table), key@),
{
    match table.get(key) {
        Some(item) => item.as_bool(),
        None => None,
    }
}

/// The table under a key.
pub fn get_section<'a>(table: &'a Table, key: &str) -> (r: Option<&'a Table>)
    ensures
        match section_entry(table_entries(*table), key@) {
            Some(section) => r matches Some(found) && table_entries(*found) == section,
            None => r is None,
        },
{
    match table.get(key) {
        Some(item) => item.as_table(),
        None => None,
    }
}

/// Puts a text under a key.
pub fn set_text(table: &mut Table, key: &str, text: &str)
    ensures
        table_entries(*final(table)) == table_entries(*old(table)).insert(
            key@,
            TomlView::Text(text@),
        ),
        table_spellings(*final(table)).remove(key@) == table_spellings(*old(table)).remove(key@),
{
    set_entry(table, key, text_item(text));
}

/// Puts a boolean under a key.
pub fn set_boolean(table: &mut Table, key: &str, value: bool)
    ensures
        table_entries(*final(table)) == table_entries(*old(table)).insert(
            key@,
            TomlView::Boolean(value),
        ),
        table_spellings(*final(table)).remove(key@) == table_spellings(*old(table)).remove(key@),
{
    set_entry(table, key, boolean_item(value));
}

/// Puts a table under a key.
pub fn set_section(table: &mut Table, key: &str, section: Table)
    ensures
        table_entries(*final(table)) == table_entries(*old(table)).insert(
            key@,
            TomlView::Section(table_entries(section)),
        ),
        table_spellings(*final(table)).remove(key@) == table_spellings(*old(table)).remove(key@),
{
    set_entry(table, key, table_item(section));
}

} // verus!
