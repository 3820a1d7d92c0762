//! Configuration values: what a TOML document holds, as far as the settings read it.

use crate::text::same_text;
use vstd::prelude::*;
use vstd::string::*;

verus! {

// ─── Values ─────────────────────────────────────────────────────────────────

/// A configuration value.
#[derive(Debug)]
pub enum ConfigValue {
    /// A string.
    Str(String),
    /// An integer.
    Int(i64),
    /// A boolean.
    Bool(bool),
    /// An array.
    Array(Vec<ConfigValue>),
    /// A table: its keys, each with its value.
    Table(Vec<(String, ConfigValue)>),
    /// A value that no setting reads: a float, a date, or an array or a table that
    /// is nested deeper than any setting.
    Other,
}

/// What stands under `key`: the first entry with that key counts.
pub open spec fn entry(entries: Seq<(String, ConfigValue)>, key: Seq<char>) -> Option<ConfigValue>
    decreases entries.len(),
{
    if entries.len() == 0 {
        None
    } else if entries[0].0@ == key {
        Some(entries[0].1)
    } else {
        entry(entries.skip(1), key)
    }
}

/// What a value holds under `key`: nothing, unless it is a table with that key.
pub open spec fn setting(value: ConfigValue, key: Seq<char>) -> Option<ConfigValue> {
    match value {
        ConfigValue::Table(entries) => entry(entries@, key),
        _ => None,
    }
}

/// The integer that stands under `key`, if an integer does.
pub open spec fn integer_setting(value: ConfigValue, key: Seq<char>) -> Option<i64> {
    match setting(value, key) {
        Some(ConfigValue::Int(n)) => Some(n),
        _ => None,
    }
}

impl ConfigValue {
    /// The value under `key`, where this is a table that has one.
    pub fn get(&self, key: &str) -> (found: Option<&ConfigValue>)
        ensures
            match found {
                Some(value) => setting(*self, key@) == Some(*value),
                None => setting(*self, key@) is None,
            },
    {
        if let ConfigValue::Table(entries) = self {
            let mut i: usize = 0;
            assert(entries@.skip(0) == entries@);
            while i < entries.len()
                invariant
                    i <= entries@.len(),
                    entry(entries@, key@) == entry(entries@.skip(i as int), key@),
                    setting(*self, key@) == entry(entries@, key@),
                decreases entries@.len() - i,
            {
                if same_text(entries[i].0.as_str(), key) {
                    return Some(&entries[i].1);
                }
                assert(entries@.skip(i as int).skip(1) == entries@.skip(i + 1));
                i = i + 1;
            }
            None
        } else {
            None
        }
    }

    /// The integer under `key`, where one stands there.
    pub fn get_integer(&self, key: &str) -> (found: Option<i64>)
        ensures
            found == integer_setting(*self, key@),
    {
        match self.get(key) {
            Some(ConfigValue::Int(n)) => Some(*n),
            _ => None,
        }
    }
}

// ─── TOML ───────────────────────────────────────────────────────────────────

/// `toml::Value`, a parsed TOML value.
#[verifier::external_type_specification]
#[verifier::external_body]
pub struct ExTomlValue(toml::Value);

/// `toml::de::Error`, the reason why a text is no TOML document.
#[verifier::external_type_specification]
#[verifier::external_body]
pub struct ExTomlError(toml::de::Error);

/// One level of a parsed TOML value.
enum Node {
    Str(String),
    Int(i64),
    Bool(bool),
    Array(Vec<toml::Value>),
    Table(Vec<(String, toml::Value)>),
    Other,
}

/// The model of one level of a parsed TOML value.
pub enum NodeView {
    /// A string.
    Str(Seq<char>),
    /// An integer.
    Int(i64),
    /// A boolean.
    Bool(bool),
    /// The elements of an array, in order.
    Array(Seq<toml::Value>),
    /// The entries of a table, in the order in which the table hands them out.
    Table(Seq<(Seq<char>, toml::Value)>),
    /// A float or a date.
    Other,
}

impl Node {
    spec fn model(self) -> NodeView {
        match self {
            Node::Str(s) => NodeView::Str(s@),
            Node::Int(n) => NodeView::Int(n),
            Node::Bool(b) => NodeView::Bool(b),
            Node::Array(items) => NodeView::Array(items@),
            Node::Table(entries) => NodeView::Table(
                entries@.map_values(|e: (String, toml::Value)| (e.0@, e.1)),
            ),
            Node::Other => NodeView::Other,
        }
    }
}

/// What `toml::from_str` reads out of a text, or why the text is no TOML document.
pub uninterp spec fn toml_document(text: Seq<char>) -> Result<toml::Value, toml::de::Error>;

/// What a `toml::de::Error` says of itself.
pub uninterp spec fn toml_error_text(error: toml::de::Error) -> Seq<char>;

/// What one level of a parsed TOML value holds.
pub uninterp spec fn toml_node(value: toml::Value) -> NodeView;

/// `toml::from_str` for a `toml::Value`: whether a text is a TOML document, and
/// which, or why not, depends on the text alone.
#[verifier::external_body]
fn read_document(text: &str) -> (result: Result<toml::Value, toml::de::Error>)
    ensures
        result == toml_document(text@),
{
    toml::from_str(text)
}

/// The `Display` form of a `toml::de::Error`, which depends on the error alone.
#[verifier::external_body]
fn error_text(error: &toml::de::Error) -> (text: String)
    ensures
        text@ == toml_error_text(*error),
{
    error.to_string()
}

/// Tells the variants of a `toml::Value` apart and hands out what it carries; a
/// table's entries come in the order of `toml::Table`'s iterator.
#[verifier::external_body]
fn open_value(value: toml::Value) -> (node: Node)
    ensures
        node.model() == toml_node(value),
{
    match value {
        toml::Value::String(s) => Node::Str(s),
        toml::Value::Integer(n) => Node::Int(n),
        toml::Value::Float(_) => Node::Other,
        toml::Value::Boolean(b) => Node::Bool(b),
        toml::Value::Datetime(_) => Node::Other,
        toml::Value::Array(items) => Node::Array(items),
        toml::Value::Table(table) => Node::Table(table.into_iter().collect()),
    }
}

/// Whether `value` is what `document` holds, `depth` levels of arrays and tables deep.
pub open spec fn mirrors(value: ConfigValue, document: toml::Value, depth: nat) -> bool
    decreases depth,
{
    match toml_node(document) {
        NodeView::Str(s) => value is Str && value->Str_0@ == s,
        NodeView::Int(n) => value == ConfigValue::Int(n),
        NodeView::Bool(b) => value == ConfigValue::Bool(b),
        NodeView::Array(items) => if depth == 0 {
            value is Other
        } else {
            &&& value is Array
            &&& value->Array_0@.len() == items.len()
            &&& forall|i: int|
                0 <= i < items.len() ==> mirrors(
                    #[trigger] value->Array_0@[i],
                    items[i],
                    (depth - 1) as nat,
                )
        },
        NodeView::Table(entries) => if depth == 0 {
            value is Other
        } else {
            &&& value is Table
            &&& value->Table_0@.len() == entries.len()
            &&& forall|i: int|
                0 <= i < entries.len() ==> (#[trigger] value->Table_0@[i]).0@ == entries[i].0
                    && mirrors(value->Table_0@[i].1, entries[i].1, (depth - 1) as nat)
        },
        NodeView::Other => value is Other,
    }
}

/// Reads a parsed TOML value, `depth` levels of arrays and tables deep.
fn read_value(document: toml::Value, depth: usize) -> (value: ConfigValue)
    ensures
        mirrors(value, document, depth as nat),
    decreases depth,
{
    match open_value(document) {
        Node::Str(s) => ConfigValue::Str(s),
        Node::Int(n) => ConfigValue::Int(n),
        Node::Bool(b) => ConfigValue::Bool(b),
        Node::Array(items) => {
            if depth == 0 {
                return ConfigValue::Other;
            }
            let ghost all = items@;
            let mut values: Vec<ConfigValue> = Vec::new();
            for item in it: items
                invariant
                    it.seq() == all,
                    depth > 0,
                    values@.len() == it.index(),
                    forall|i: int|
                        0 <= i < values@.len() ==> mirrors(
                            #[trigger] values@[i],
                            all[i],
                            (depth - 1) as nat,
                        ),
            {
                values.push(read_value(item, depth - 1));
            }
            ConfigValue::Array(values)
        },
        Node::Table(entries) => {
            if depth == 0 {
                return ConfigValue::Other;
            }
            let ghost all = entries@;
            let mut values: Vec<(String, ConfigValue)> = Vec::new();
            for pair in it: entries
                invariant
                    it.seq() == all,
                    depth > 0,
                    values@.len() == it.index(),
                    forall|i: int|
                        0 <= i < values@.len() ==> (#[trigger] values@[i]).0@ == all[i].0@
                            && mirrors(values@[i].1, all[i].1, (depth - 1) as nat),
            {
                let (key, item) = pair;
                values.push((key, read_value(item, depth - 1)));
            }
            ConfigValue::Table(values)
        },
        Node::Other => ConfigValue::Other,
    }
}

/// How deep the settings nest: the document is a table, its rules are an array, and
/// each rule is a table of plain values.
pub const SETTING_DEPTH: usize = 3;

/// Parses a TOML document: the values that it holds, as deep as the settings nest, or
/// what the parser says where the text is no TOML document.
pub fn parse_document(text: &str) -> (document: Result<ConfigValue, String>)
    ensures
        match (document, toml_document(text@)) {
            (Ok(value), Ok(read)) => mirrors(value, read, SETTING_DEPTH as nat),
            (Err(reason), Err(error)) => reason@ == toml_error_text(error),
            _ => false,
        },
{
    match read_document(text) {
        Ok(document) => Ok(read_value(document, SETTING_DEPTH)),
        Err(error) => Err(error_text(&error)),
    }
}

// ─── Laws ───────────────────────────────────────────────────────────────────

/// Whether `value` is a table in which `found` stands under `key`: in an entry with that
/// key, and with no other such entry before it.
pub open spec fn holds(value: ConfigValue, key: Seq<char>, found: ConfigValue) -> bool {
    &&& value is Table
    &&& exists|i: int|
        0 <= i < value->Table_0@.len() && (#[trigger] value->Table_0@[i]).0@ == key
            && value->Table_0@[i].1 == found && forall|j: int|
            0 <= j < i ==> (#[trigger] value->Table_0@[j]).0@ != key
}

/// Whether `value` is no table, or a table without an entry that has this key.
pub open spec fn lacks(value: ConfigValue, key: Seq<char>) -> bool {
    value is Table ==> forall|i: int|
        0 <= i < value->Table_0@.len() ==> (#[trigger] value->Table_0@[i]).0@ != key
}

/// The entry that counts is the one at `i`.
proof fn lemma_entry_at(entries: Seq<(String, ConfigValue)>, key: Seq<char>, i: int)
    requires
        0 <= i < entries.len(),
        entries[i].0@ == key,
        forall|j: int| 0 <= j < i ==> (#[trigger] entries[j]).0@ != key,
    ensures
        entry(entries, key) == Some(entries[i].1),
    decreases i,
{
    if i > 0 {
        let rest = entries.skip(1);
        assert(entries[0].0@ != key);
        assert forall|j: int| 0 <= j < i - 1 implies (#[trigger] rest[j]).0@ != key by {
            assert(rest[j] == entries[j + 1]);
        }
        lemma_entry_at(rest, key, i - 1);
    }
}

/// An entry that counts is in the list, and no entry with its key stands before it.
proof fn lemma_entry_found(entries: Seq<(String, ConfigValue)>, key: Seq<char>)
    ensures
        match entry(entries, key) {
            Some(found) => exists|i: int|
                0 <= i < entries.len() && (#[trigger] entries[i]).0@ == key && entries[i].1 == found
                    && forall|j: int| 0 <= j < i ==> (#[trigger] entries[j]).0@ != key,
            None => forall|i: int| 0 <= i < entries.len() ==> (#[trigger] entries[i]).0@ != key,
        },
    decreases entries.len(),
{
    if entries.len() > 0 {
        if entries[0].0@ == key {
            assert(entries[0].1 == entry(entries, key)->Some_0);
        } else {
            let rest = entries.skip(1);
            lemma_entry_found(rest, key);
            match entry(rest, key) {
                Some(found) => {
                    let i = choose|i: int|
                        0 <= i < rest.len() && (#[trigger] rest[i]).0@ == key && rest[i].1 == found
                            && forall|j: int| 0 <= j < i ==> (#[trigger] rest[j]).0@ != key;
                    assert(entries[i + 1] == rest[i]);
                    assert forall|j: int| 0 <= j < i + 1 implies (#[trigger] entries[j]).0@
                        != key by {
                        if j > 0 {
                            assert(entries[j] == rest[j - 1]);
                        }
                    }
                },
                None => {
                    assert forall|i: int| 0 <= i < entries.len() implies (#[trigger] entries[i]).0@
                        != key by {
                        if i > 0 {
                            assert(entries[i] == rest[i - 1]);
                        }
                    }
                },
            }
        }
    }
}

/// A setting is what stands under its key, letter for letter, and is there just where some
/// entry has that key.
pub proof fn law_settings_are_found(value: ConfigValue, key: Seq<char>, found: ConfigValue)
    ensures
        setting(value, key) == Some(found) <==> holds(value, key, found),
        setting(value, key) is None <==> lacks(value, key),
{
    if value is Table {
        let entries = value->Table_0@;
        lemma_entry_found(entries, key);
        if holds(value, key, found) {
            let i = choose|i: int|
                0 <= i < entries.len() && (#[trigger] entries[i]).0@ == key && entries[i].1 == found
                    && forall|j: int| 0 <= j < i ==> (#[trigger] entries[j]).0@ != key;
            lemma_entry_at(entries, key, i);
        }
    }
}

/// An integer setting is the integer that stands under its key; a value of any other type
/// is none.
pub proof fn law_integer_settings_are_integers(value: ConfigValue, key: Seq<char>, n: i64)
    ensures
        integer_setting(value, key) == Some(n) <==> holds(value, key, ConfigValue::Int(n)),
        integer_setting(value, key) is None <==> forall|m: i64|
            !(#[trigger] holds(value, key, ConfigValue::Int(m))),
{
    law_settings_are_found(value, key, ConfigValue::Int(n));
    assert forall|m: i64| true implies (#[trigger] holds(value, key, ConfigValue::Int(m))
        <==> integer_setting(value, key) == Some(m)) by {
        law_settings_are_found(value, key, ConfigValue::Int(m));
    }
    if integer_setting(value, key) is Some {
        assert(holds(value, key, ConfigValue::Int(integer_setting(value, key)->Some_0)));
    }
}

/// A document's settings are its own: where the document is a table, the configuration is a
/// table with the same keys in the same places, and a string, an integer or a boolean under
/// a key is the same string, integer or boolean in the configuration.
pub proof fn law_settings_come_from_the_document(
    cfg: ConfigValue,
    document: toml::Value,
    i: int,
)
    requires
        mirrors(cfg, document, SETTING_DEPTH as nat),
        toml_node(document) is Table,
        0 <= i < toml_node(document)->Table_0.len(),
    ensures
        cfg is Table,
        cfg->Table_0@.len() == toml_node(document)->Table_0.len(),
        cfg->Table_0@[i].0@ == toml_node(document)->Table_0[i].0,
        same_plain(cfg->Table_0@[i].1, toml_node(document)->Table_0[i].1),
        toml_node(toml_node(document)->Table_0[i].1) is Array ==> cfg->Table_0@[i].1 is Array,
        toml_node(toml_node(document)->Table_0[i].1) is Table ==> cfg->Table_0@[i].1 is Table,
{
    assert(SETTING_DEPTH == 3);
    assert(mirrors(cfg->Table_0@[i].1, toml_node(document)->Table_0[i].1, 2));
    lemma_mirrors_plain(cfg->Table_0@[i].1, toml_node(document)->Table_0[i].1, 2);
}

/// Whether a string, an integer or a boolean of a document is the same in a configuration,
/// and nothing else is taken for one.
pub open spec fn same_plain(value: ConfigValue, document: toml::Value) -> bool {
    &&& toml_node(document) matches NodeView::Str(s) ==> value is Str && value->Str_0@ == s
    &&& toml_node(document) matches NodeView::Int(n) ==> value == ConfigValue::Int(n)
    &&& toml_node(document) matches NodeView::Bool(b) ==> value == ConfigValue::Bool(b)
    &&& value is Str ==> toml_node(document) is Str
    &&& value is Int ==> toml_node(document) is Int
    &&& value is Bool ==> toml_node(document) is Bool
}

proof fn lemma_mirrors_plain(value: ConfigValue, document: toml::Value, depth: nat)
    requires
        mirrors(value, document, depth),
    ensures
        same_plain(value, document),
{
}

/// The elements of an array in a document are the elements of the array in the
/// configuration, in the same order: each plain value is the same, and each table is a table
/// with the same keys in the same places and the same plain values. So the list of rules is
/// read whole.
pub proof fn law_lists_come_from_the_document(
    cfg: ConfigValue,
    document: toml::Value,
    i: int,
    j: int,
    k: int,
)
    requires
        mirrors(cfg, document, SETTING_DEPTH as nat),
        toml_node(document) is Table,
        0 <= i < toml_node(document)->Table_0.len(),
        toml_node(toml_node(document)->Table_0[i].1) is Array,
    ensures
        ({
            let list = toml_node(toml_node(document)->Table_0[i].1)->Array_0;
            let items = cfg->Table_0@[i].1->Array_0@;
            &&& items.len() == list.len()
            &&& 0 <= j < list.len() ==> same_plain(items[j], list[j])
            &&& 0 <= j < list.len() && toml_node(list[j]) is Table ==> {
                let fields = toml_node(list[j])->Table_0;
                &&& items[j] is Table
                &&& items[j]->Table_0@.len() == fields.len()
                &&& 0 <= k < fields.len() ==> items[j]->Table_0@[k].0@ == fields[k].0
                    && same_plain(items[j]->Table_0@[k].1, fields[k].1)
            }
            &&& 0 <= j < list.len() && items[j] is Table ==> toml_node(list[j]) is Table
        }),
{
    assert(SETTING_DEPTH == 3);
    let list = toml_node(toml_node(document)->Table_0[i].1)->Array_0;
    assert(mirrors(cfg->Table_0@[i].1, toml_node(document)->Table_0[i].1, 2));
    let items = cfg->Table_0@[i].1->Array_0@;
    if 0 <= j < list.len() {
        assert(mirrors(items[j], list[j], 1));
        lemma_mirrors_plain(items[j], list[j], 1);
        if toml_node(list[j]) is Table {
            let fields = toml_node(list[j])->Table_0;
            if 0 <= k < fields.len() {
                assert(items[j]->Table_0@[k].0@ == fields[k].0);
                assert(mirrors(items[j]->Table_0@[k].1, fields[k].1, 0));
                lemma_mirrors_plain(items[j]->Table_0@[k].1, fields[k].1, 0);
            }
        }
    }
}

} // verus!
