//! Access to TOML tables.
//!
//! Everything here is trusted: a table is opaque to the verifier, and the
//! functions below are the only way in which the library reads one.

use vstd::prelude::*;

verus! {

/// The table type of the `toml` crate.
#[verifier::external_type_specification]
#[verifier::external_body]
#[verifier::reject_recursive_types(K)]
#[verifier::reject_recursive_types(V)]
pub struct ExTomlMap<K, V>(toml::map::Map<K, V>);

/// The value type of the `toml` crate.
#[verifier::external_type_specification]
#[verifier::external_body]
pub struct ExTomlValue(toml::Value);

/// The entries of a table whose value is a string, by key.
pub uninterp spec fn table_texts(table: toml::map::Map<String, toml::Value>) -> Map<
    Seq<char>,
    Seq<char>,
>;

/// The entries of a table whose value is an integer, by key.
pub uninterp spec fn table_integers(table: toml::map::Map<String, toml::Value>) -> Map<
    Seq<char>,
    i64,
>;

/// The entries of a table whose value is a boolean, by key.
pub uninterp spec fn table_booleans(table: toml::map::Map<String, toml::Value>) -> Map<
    Seq<char>,
    bool,
>;

/// What a table holds as a string under a key.
pub open spec fn text_entry(
    table: toml::map::Map<String, toml::Value>,
    key: Seq<char>,
) -> Option<Seq<char>> {
    if table_texts(table).contains_key(key) {
        Some(table_texts(table)[key])
    } else {
        None
    }
}

/// What a table holds as an integer under a key.
pub open spec fn integer_entry(
    table: toml::map::Map<String, toml::Value>,
    key: Seq<char>,
) -> Option<i64> {
    if table_integers(table).contains_key(key) {
        Some(table_integers(table)[key])
    } else {
        None
    }
}

/// What a table holds as a boolean under a key.
pub open spec fn boolean_entry(
    table: toml::map::Map<String, toml::Value>,
    key: Seq<char>,
) -> Option<bool> {
    if table_booleans(table).contains_key(key) {
        Some(table_booleans(table)[key])
    } else {
        None
    }
}

/// `toml::map::Map::get` followed by `toml::Value::as_str`: claims that the
/// result is the string that the table holds under the key, and that there is
/// none where the key is absent or its value is of another kind.
#[verifier::external_body]
pub(crate) fn get_text(table: &toml::map::Map<String, toml::Value>, key: &str) -> (r: Option<
    String,
>)
    ensures
        match r {
            Some(s) => table_texts(*table).contains_key(key@) && table_texts(*table)[key@] == s@,
            None => !table_texts(*table).contains_key(key@),
        },
{
    table.get(key).and_then(|v| v.as_str()).map(|s| s.to_string())
}

/// `toml::map::Map::get` followed by `toml::Value::as_integer`: claims that
/// the result is the integer that the table holds under the key, and that
/// there is none where the key is absent or its value is of another kind.
#[verifier::external_body]
pub(crate) fn get_integer(table: &toml::map::Map<String, toml::Value>, key: &str) -> (r: Option<
    i64,
>)
    ensures
        match r {
            Some(v) => table_integers(*table).contains_key(key@) && table_integers(*table)[key@] == v,
            None => !table_integers(*table).contains_key(key@),
        },
{
    table.get(key).and_then(|v| v.as_integer())
}

/// `toml::map::Map::get` followed by `toml::Value::as_bool`: claims that the
/// result is the boolean that the table holds under the key, and that there is
/// none where the key is absent or its value is of another kind.
#[verifier::external_body]
pub(crate) fn get_boolean(table: &toml::map::Map<String, toml::Value>, key: &str) -> (r: Option<
    bool,
>)
    ensures
        match r {
            Some(v) => table_booleans(*table).contains_key(key@) && table_booleans(*table)[key@] == v,
            None => !table_booleans(*table).contains_key(key@),
        },
{
    table.get(key).and_then(|v| v.as_bool())
}

} // verus!
