//! The commented default configuration file, built with `toml_edit`.
use vstd::prelude::*;

use crate::daily_folder::template::{digit_char, month_key, month_key_string};
use crate::month_defaults::{
    lemma_spanish_names_complete, spanish_month_names, spanish_month_table,
};
use crate::toml_doc::{
    has_key, key_index, table_insert, table_set_prefix, toml_bool_value, toml_document,
    toml_document_new, toml_insert, toml_integer_value, toml_item, toml_root_table,
    toml_set_implicit, toml_set_key_prefix, toml_set_table_prefix, toml_table, toml_table_item, toml_table_new,
    toml_text_array, toml_text_value, TomlEntry, TomlTable, TomlValue,
};

verus! {

/// The keys, values and comments of a default configuration file.
pub struct DocumentText {
    pub root_directory: &'static str,
    pub root_directory_comment: &'static str,
    pub create_path: &'static str,
    pub create_path_comment: &'static str,
    pub extensions_key: &'static str,
    pub extensions_comment: &'static str,
    pub max_files_comment: &'static str,
    pub folder_key: &'static str,
    pub folder_value: &'static str,
    pub folder_comment: &'static str,
    pub create_link_comment: &'static str,
    pub duplicates_comment: &'static str,
    pub month_names_comment: &'static str,
}

/// The top-level keys of the configuration file, in order.
pub open spec fn document_keys(t: DocumentText) -> Seq<Seq<char>> {
    seq![
        "root_directory"@,
        "create_path"@,
        t.extensions_key@,
        "max_files_before_trigger"@,
        t.folder_key@,
        "create_link_to_daily_folder"@,
        "duplicate_daily_folder_link_to"@,
        "month_names"@,
    ]
}

/// An entry with a comment before its key.
pub open spec fn commented(key: Seq<char>, value: TomlValue, comment: Seq<char>) -> TomlEntry {
    TomlEntry { key: key, value: value, prefix: Some(comment) }
}

/// The month-name table of the default file: the twelve months in order,
/// each with its Spanish name.
pub open spec fn month_entries() -> Seq<TomlEntry> {
    Seq::new(
        12,
        |i: int|
            TomlEntry {
                key: month_key(i + 1),
                value: TomlValue::Text(spanish_month_names()[month_key(i + 1)]),
                prefix: None,
            },
    )
}

/// The default configuration file: every setting at its default value, each
/// with its comment before its key, and the month names as an implicit table
/// with its comment before the table's header.
pub open spec fn default_document(t: DocumentText, extensions: Seq<Seq<char>>, max_files: int) -> TomlTable {
    TomlTable {
        entries: seq![
            commented("root_directory"@, TomlValue::Text(t.root_directory@), t.root_directory_comment@),
            commented("create_path"@, TomlValue::Text(t.create_path@), t.create_path_comment@),
            commented(t.extensions_key@, TomlValue::TextArray(extensions), t.extensions_comment@),
            commented("max_files_before_trigger"@, TomlValue::Integer(max_files), t.max_files_comment@),
            commented(t.folder_key@, TomlValue::Text(t.folder_value@), t.folder_comment@),
            commented("create_link_to_daily_folder"@, TomlValue::Boolean(true), t.create_link_comment@),
            commented("duplicate_daily_folder_link_to"@, TomlValue::TextArray(Seq::empty()), t.duplicates_comment@),
            TomlEntry {
                key: "month_names"@,
                value: TomlValue::Table(
                    TomlTable { entries: month_entries(), implicit: true, prefix: Some(t.month_names_comment@) },
                ),
                prefix: None,
            },
        ],
        implicit: false,
        prefix: None,
    }
}

/// No two entries of `t` have the same key.
pub open spec fn distinct_keys(t: TomlTable) -> bool {
    forall|i: int, j: int|
        0 <= i < j < t.entries.len() ==> #[trigger] t.entries[i].key != #[trigger] t.entries[j].key
}

/// The value `t` gives `key`, or `None` when it has no such key.
pub open spec fn value_of(t: TomlTable, key: Seq<char>) -> Option<TomlValue> {
    if has_key(t, key) {
        Some(t.entries[key_index(t, key)].value)
    } else {
        None
    }
}

/// The table gives exactly the keys of `names`, each its name as text.
pub open spec fn holds_names(t: TomlTable, names: Map<Seq<char>, Seq<char>>) -> bool {
    &&& forall|k: Seq<char>| #[trigger] has_key(t, k) <==> names.dom().contains(k)
    &&& forall|k: Seq<char>|
        names.dom().contains(k) ==> #[trigger] value_of(t, k) == Some(TomlValue::Text(names[k]))
}

/// In a table without repeated keys, a key's value is that of its entry.
proof fn lemma_value_at(t: TomlTable, i: int)
    requires
        distinct_keys(t),
        0 <= i < t.entries.len(),
    ensures
        value_of(t, t.entries[i].key) == Some(t.entries[i].value),
{
    let k = t.entries[i].key;
    assert(has_key(t, k));
    let j = key_index(t, k);
    if j < i {
        assert(t.entries[j].key != t.entries[i].key);
    } else if j > i {
        assert(t.entries[i].key != t.entries[j].key);
    }
}

/// Different months have different keys.
proof fn lemma_month_keys_distinct(a: int, b: int)
    requires
        1 <= a <= 12,
        1 <= b <= 12,
        a != b,
    ensures
        month_key(a) != month_key(b),
{
    if month_key(a) == month_key(b) {
        assert(month_key(a)[0] == month_key(b)[0]);
        assert(month_key(a)[1] == month_key(b)[1]);
        assert(digit_char(a / 10) == digit_char(b / 10));
        assert(digit_char(a % 10) == digit_char(b % 10));
    }
}

/// Inserting a key the table does not have appends it.
proof fn lemma_insert_new(t: TomlTable, key: Seq<char>, v: TomlValue, comment: Seq<char>)
    requires
        forall|i: int| 0 <= i < t.entries.len() ==> (#[trigger] t.entries[i]).key != key,
    ensures
        table_set_prefix(table_insert(t, key, v), key, comment) == (TomlTable {
            entries: t.entries.push(commented(key, v, comment)),
            ..t
        }),
{
    let t1 = table_insert(t, key, v);
    assert(t1.entries[t.entries.len() as int].key == key);
    assert(has_key(t1, key));
    let i = key_index(t1, key);
    assert(i == t.entries.len());
    assert(t1.entries.update(i, commented(key, v, comment)) =~= t.entries.push(commented(key, v, comment)));
}

/// Adds `key = item` with `comment` before it, to a table that lacks `key`.
fn insert_commented(table: &mut toml_edit::Table, key: &str, item: toml_edit::Item, comment: &str)
    requires
        forall|i: int|
            0 <= i < toml_table(*old(table)).entries.len() ==> (#[trigger] toml_table(
                *old(table),
            ).entries[i]).key != key@,
    ensures
        toml_table(*final(table)) == (TomlTable {
            entries: toml_table(*old(table)).entries.push(commented(key@, toml_item(item), comment@)),
            ..toml_table(*old(table))
        }),
{
    let ghost v = toml_item(item);
    let ghost t0 = toml_table(*table);
    toml_insert(table, key, item);
    toml_set_key_prefix(table, key, comment);
    proof {
        lemma_insert_new(t0, key@, v, comment@);
    }
}

/// The month-name table of the default file, with `comment` before its header.
fn month_names_table(comment: &str) -> (r: toml_edit::Table)
    ensures
        toml_table(r) == (TomlTable { entries: month_entries(), implicit: true, prefix: Some(comment@) }),
{
    let names = spanish_month_table();
    let mut table = toml_table_new();
    let mut m: u32 = 1;
    while m <= 12
        invariant
            1 <= m <= 13,
            names@ == spanish_month_names(),
            forall|k: int| 1 <= k <= 12 ==> #[trigger] names@.dom().contains(month_key(k)),
            toml_table(table).entries == month_entries().take(m - 1),
            !toml_table(table).implicit,
            toml_table(table).prefix is None,
        decreases 13 - m,
    {
        let key = month_key_string(m);
        let ghost before = toml_table(table);
        proof {
            assert(names@.dom().contains(month_key(m as int)));
            assert forall|i: int| 0 <= i < before.entries.len() implies (#[trigger] before.entries[i]).key
                != key@ by {
                assert(before.entries[i] == month_entries()[i]);
                lemma_month_keys_distinct(i + 1, m as int);
            }
        }
        match names.get(&key) {
            Some(name) => {
                let item = toml_text_value(name.as_str());
                toml_insert(&mut table, key.as_str(), item);
                proof {
                    let t1 = toml_table(table);
                    assert(t1.entries =~= month_entries().take(m as int));
                }
            },
            None => {},
        }
        m += 1;
    }
    assert(month_entries().take(12) =~= month_entries());
    toml_set_implicit(&mut table, true);
    toml_set_table_prefix(&mut table, comment);
    table
}

/// Builds the default configuration document from its texts, default
/// extension list and file-count threshold.
pub fn settings_document(t: &DocumentText, extensions: Vec<String>, max_files: u8) -> (r: toml_edit::DocumentMut)
    requires
        forall|i: int, j: int|
            0 <= i < j < 8 ==> #[trigger] document_keys(*t)[i] != #[trigger] document_keys(*t)[j],
    ensures
        toml_document(r) == default_document(*t, extensions@.map_values(|s: String| s@), max_files as int),
{
    let ghost exts = extensions@.map_values(|s: String| s@);
    let ghost keys = document_keys(*t);
    let mut doc = toml_document_new();
    let table = toml_root_table(&mut doc);
    let ghost e0 = toml_table(*table).entries;
    assert(e0.len() == 0);

    let item = toml_text_value(t.root_directory);
    insert_commented(table, "root_directory", item, t.root_directory_comment);
    let ghost e1 = toml_table(*table).entries;
    assert(e1[0].key == keys[0]);

    let item = toml_text_value(t.create_path);
    proof {
        assert(keys[0] != keys[1]);
    }
    insert_commented(table, "create_path", item, t.create_path_comment);
    let ghost e2 = toml_table(*table).entries;
    assert(e2[0].key == keys[0] && e2[1].key == keys[1]);

    let item = toml_text_array(extensions);
    proof {
        assert(keys[0] != keys[2] && keys[1] != keys[2]);
        assert forall|i: int| 0 <= i < e2.len() implies (#[trigger] e2[i]).key != keys[2] by {
            if i == 0 {} else {}
        }
    }
    insert_commented(table, t.extensions_key, item, t.extensions_comment);
    let ghost e3 = toml_table(*table).entries;

    let item = toml_integer_value(max_files as i64);
    proof {
        assert(keys[0] != keys[3] && keys[1] != keys[3] && keys[2] != keys[3]);
        assert forall|i: int| 0 <= i < e3.len() implies (#[trigger] e3[i]).key != keys[3] by {
            assert(e3[i].key == keys[i]);
        }
    }
    insert_commented(table, "max_files_before_trigger", item, t.max_files_comment);
    let ghost e4 = toml_table(*table).entries;

    let item = toml_text_value(t.folder_value);
    proof {
        assert forall|i: int| 0 <= i < e4.len() implies (#[trigger] e4[i]).key != keys[4] by {
            assert(e4[i].key == keys[i]);
        }
    }
    insert_commented(table, t.folder_key, item, t.folder_comment);
    let ghost e5 = toml_table(*table).entries;

    let item = toml_bool_value(true);
    proof {
        assert forall|i: int| 0 <= i < e5.len() implies (#[trigger] e5[i]).key != keys[5] by {
            assert(e5[i].key == keys[i]);
        }
    }
    insert_commented(table, "create_link_to_daily_folder", item, t.create_link_comment);
    let ghost e6 = toml_table(*table).entries;

    let item = toml_text_array(Vec::new());
    proof {
        assert forall|i: int| 0 <= i < e6.len() implies (#[trigger] e6[i]).key != keys[6] by {
            assert(e6[i].key == keys[i]);
        }
    }
    insert_commented(table, "duplicate_daily_folder_link_to", item, t.duplicates_comment);
    let ghost e7 = toml_table(*table).entries;

    let months = month_names_table(t.month_names_comment);
    let item = toml_table_item(months);
    proof {
        assert forall|i: int| 0 <= i < e7.len() implies (#[trigger] e7[i]).key != keys[7] by {
            assert(e7[i].key == keys[i]);
        }
    }
    let ghost before = toml_table(*table);
    toml_insert(table, "month_names", item);
    proof {
        assert(!has_key(before, keys[7]));
    }
    proof {
        let fin = toml_table(*table);
        let want = default_document(*t, exts, max_files as int);
        assert(Seq::<String>::empty().map_values(|s: String| s@) =~= Seq::<Seq<char>>::empty());
        assert(fin.entries =~= want.entries);
    }
    doc
}

/// The month table of the default file gives each month its Spanish name,
/// and nothing else.
proof fn lemma_month_table_holds_names(comment: Seq<char>)
    ensures
        holds_names(
            TomlTable { entries: month_entries(), implicit: true, prefix: Some(comment) },
            spanish_month_names(),
        ),
{
    let t = TomlTable { entries: month_entries(), implicit: true, prefix: Some(comment) };
    let names = spanish_month_names();
    lemma_spanish_names_complete();
    assert(distinct_keys(t)) by {
        assert forall|i: int, j: int| 0 <= i < j < t.entries.len() implies #[trigger] t.entries[i].key
            != #[trigger] t.entries[j].key by {
            lemma_month_keys_distinct(i + 1, j + 1);
        }
    }
    assert forall|k: Seq<char>| #[trigger] has_key(t, k) <==> names.dom().contains(k) by {
        if has_key(t, k) {
            let i = choose|i: int| 0 <= i < t.entries.len() && (#[trigger] t.entries[i]).key == k;
            assert(k == month_key(i + 1));
        }
        if names.dom().contains(k) {
            let m = choose|m: int| 1 <= m <= 12 && k == month_key(m);
            assert(t.entries[m - 1].key == k);
        }
    }
    assert forall|k: Seq<char>| names.dom().contains(k) implies #[trigger] value_of(t, k) == Some(
        TomlValue::Text(names[k]),
    ) by {
        let m = choose|m: int| 1 <= m <= 12 && k == month_key(m);
        assert(t.entries[m - 1].key == k);
        lemma_value_at(t, m - 1);
    }
}

/// The default document gives each top-level key its default value: `texts`
/// holds the keys, the values of the text settings and the comments.
pub proof fn lemma_default_document_values(t: DocumentText, extensions: Seq<Seq<char>>, max_files: int)
    requires
        forall|i: int, j: int|
            0 <= i < j < 8 ==> #[trigger] document_keys(t)[i] != #[trigger] document_keys(t)[j],
    ensures
        ({
            let d = default_document(t, extensions, max_files);
            &&& value_of(d, "root_directory"@) == Some(TomlValue::Text(t.root_directory@))
            &&& value_of(d, "create_path"@) == Some(TomlValue::Text(t.create_path@))
            &&& value_of(d, t.extensions_key@) == Some(TomlValue::TextArray(extensions))
            &&& value_of(d, "max_files_before_trigger"@) == Some(TomlValue::Integer(max_files))
            &&& value_of(d, t.folder_key@) == Some(TomlValue::Text(t.folder_value@))
            &&& value_of(d, "create_link_to_daily_folder"@) == Some(TomlValue::Boolean(true))
            &&& value_of(d, "duplicate_daily_folder_link_to"@) == Some(TomlValue::TextArray(Seq::empty()))
            &&& value_of(d, "month_names"@) == Some(TomlValue::Table(
                TomlTable { entries: month_entries(), implicit: true, prefix: Some(t.month_names_comment@) },
            ))
        }),
        holds_names(
            TomlTable { entries: month_entries(), implicit: true, prefix: Some(t.month_names_comment@) },
            spanish_month_names(),
        ),
{
    let d = default_document(t, extensions, max_files);
    let keys = document_keys(t);
    assert forall|i: int| 0 <= i < 8 implies #[trigger] d.entries[i].key == keys[i] by {}
    assert(distinct_keys(d)) by {
        assert forall|i: int, j: int| 0 <= i < j < d.entries.len() implies #[trigger] d.entries[i].key
            != #[trigger] d.entries[j].key by {
            assert(d.entries[i].key == keys[i] && d.entries[j].key == keys[j]);
        }
    }
    lemma_value_at(d, 0);
    lemma_value_at(d, 1);
    lemma_value_at(d, 2);
    lemma_value_at(d, 3);
    lemma_value_at(d, 4);
    lemma_value_at(d, 5);
    lemma_value_at(d, 6);
    lemma_value_at(d, 7);
    lemma_month_table_holds_names(t.month_names_comment@);
}

} // verus!
