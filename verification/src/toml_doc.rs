//! The parts of `toml_edit` that build the commented default
//! configuration file, with a model of what a table holds.
use vstd::prelude::*;

verus! {

/// `toml_edit::DocumentMut`.
#[verifier::external_type_specification]
#[verifier::external_body]
pub struct ExDocumentMut(toml_edit::DocumentMut);

/// `toml_edit::Table`.
#[verifier::external_type_specification]
#[verifier::external_body]
pub struct ExTable(toml_edit::Table);

/// `toml_edit::Item`.
#[verifier::external_type_specification]
#[verifier::external_body]
pub struct ExItem(toml_edit::Item);

/// A value of a TOML table, as far as the configuration file uses them.
pub enum TomlValue {
    Text(Seq<char>),
    Integer(int),
    Boolean(bool),
    TextArray(Seq<Seq<char>>),
    Table(TomlTable),
    Other,
}

/// A key of a table, its value, and the text (comments) set before the key.
pub struct TomlEntry {
    pub key: Seq<char>,
    pub value: TomlValue,
    pub prefix: Option<Seq<char>>,
}

/// The entries of a table in order, whether the table is implicit (a
/// header that is not written out when the table holds only sub-tables),
/// and the text (comments) set before its header.
pub struct TomlTable {
    pub entries: Seq<TomlEntry>,
    pub implicit: bool,
    pub prefix: Option<Seq<char>>,
}

/// What a `toml_edit::Table` holds.
pub uninterp spec fn toml_table(t: toml_edit::Table) -> TomlTable;

/// What the root table of a `toml_edit::DocumentMut` holds.
pub uninterp spec fn toml_document(d: toml_edit::DocumentMut) -> TomlTable;

/// The value a `toml_edit::Item` holds.
pub uninterp spec fn toml_item(i: toml_edit::Item) -> TomlValue;

/// An empty, non-implicit table.
pub open spec fn empty_table() -> TomlTable {
    TomlTable { entries: Seq::empty(), implicit: false, prefix: None }
}

/// `t` holds an entry with key `key`.
pub open spec fn has_key(t: TomlTable, key: Seq<char>) -> bool {
    exists|i: int| 0 <= i < t.entries.len() && (#[trigger] t.entries[i]).key == key
}

/// The index of the entry with key `key`.
pub open spec fn key_index(t: TomlTable, key: Seq<char>) -> int {
    choose|i: int| 0 <= i < t.entries.len() && (#[trigger] t.entries[i]).key == key
}

/// `Table::insert`: an existing key keeps its place, gets the new value and
/// loses its formatting; a new key goes last.
pub open spec fn table_insert(t: TomlTable, key: Seq<char>, v: TomlValue) -> TomlTable {
    let e = TomlEntry { key: key, value: v, prefix: None };
    if has_key(t, key) {
        TomlTable { entries: t.entries.update(key_index(t, key), e), ..t }
    } else {
        TomlTable { entries: t.entries.push(e), ..t }
    }
}

/// Setting the prefix of the key `key`, when the table has it.
pub open spec fn table_set_prefix(t: TomlTable, key: Seq<char>, prefix: Seq<char>) -> TomlTable {
    if has_key(t, key) {
        let i = key_index(t, key);
        let e = t.entries[i];
        TomlTable {
            entries: t.entries.update(i, TomlEntry { key: e.key, value: e.value, prefix: Some(prefix) }),
            ..t
        }
    } else {
        t
    }
}

/// `DocumentMut::new`: a document with an empty root table.
#[verifier::external_body]
pub(crate) fn toml_document_new() -> (r: toml_edit::DocumentMut)
    ensures
        toml_document(r) == empty_table(),
{
    toml_edit::DocumentMut::new()
}

/// `DocumentMut::deref_mut`: the root table of a document.
#[verifier::external_body]
pub(crate) fn toml_root_table(doc: &mut toml_edit::DocumentMut) -> (r: &mut toml_edit::Table)
    ensures
        toml_table(*r) == toml_document(*old(doc)),
        toml_document(*final(doc)) == toml_table(*final(r)),
{
    &mut *doc
}

/// `Table::new`: an empty table.
#[verifier::external_body]
pub(crate) fn toml_table_new() -> (r: toml_edit::Table)
    ensures
        toml_table(r) == empty_table(),
{
    toml_edit::Table::new()
}

/// `toml_edit::value` for a string: a string value.
#[verifier::external_body]
pub(crate) fn toml_text_value(v: &str) -> (r: toml_edit::Item)
    ensures
        toml_item(r) == TomlValue::Text(v@),
{
    toml_edit::value(v)
}

/// `toml_edit::value` for a boolean: a boolean value.
#[verifier::external_body]
pub(crate) fn toml_bool_value(b: bool) -> (r: toml_edit::Item)
    ensures
        toml_item(r) == TomlValue::Boolean(b),
{
    toml_edit::value(b)
}

/// `Item::from` for an integer: an integer value.
#[verifier::external_body]
pub(crate) fn toml_integer_value(i: i64) -> (r: toml_edit::Item)
    ensures
        toml_item(r) == TomlValue::Integer(i as int),
{
    toml_edit::Item::from(i)
}

/// `Array::extend` on a new `Array`, as an item: an array of strings.
#[verifier::external_body]
pub(crate) fn toml_text_array(values: Vec<String>) -> (r: toml_edit::Item)
    ensures
        toml_item(r) == TomlValue::TextArray(values@.map_values(|s: String| s@)),
{
    let mut array = toml_edit::Array::new();
    array.extend(values);
    toml_edit::Item::Value(array.into())
}

/// `Table::set_implicit`.
#[verifier::external_body]
pub(crate) fn toml_set_implicit(t: &mut toml_edit::Table, implicit: bool)
    ensures
        toml_table(*final(t)) == (TomlTable { implicit: implicit, ..toml_table(*old(t)) }),
{
    t.set_implicit(implicit);
}

/// `Item::Table`: a table as an item.
#[verifier::external_body]
pub(crate) fn toml_table_item(t: toml_edit::Table) -> (r: toml_edit::Item)
    ensures
        toml_item(r) == TomlValue::Table(toml_table(t)),
{
    toml_edit::Item::Table(t)
}

/// `Table::insert`.
#[verifier::external_body]
pub(crate) fn toml_insert(t: &mut toml_edit::Table, key: &str, item: toml_edit::Item)
    ensures
        toml_table(*final(t)) == table_insert(toml_table(*old(t)), key@, toml_item(item)),
{
    t.insert(key, item);
}

/// `Table::key_mut` then `Decor::set_prefix` on the key's leaf decor: the
/// text written before the key, when the table has the key.
#[verifier::external_body]
pub(crate) fn toml_set_key_prefix(t: &mut toml_edit::Table, key: &str, prefix: &str)
    ensures
        toml_table(*final(t)) == table_set_prefix(toml_table(*old(t)), key@, prefix@),
{
    if let Some(mut k) = t.key_mut(key) {
        k.leaf_decor_mut().set_prefix(prefix);
    }
}


/// `Table::decor_mut` then `Decor::set_prefix`: the text written before the
/// table's header.
#[verifier::external_body]
pub(crate) fn toml_set_table_prefix(t: &mut toml_edit::Table, prefix: &str)
    ensures
        toml_table(*final(t)) == (TomlTable { prefix: Some(prefix@), ..toml_table(*old(t)) }),
{
    t.decor_mut().set_prefix(prefix);
}

} // verus!
