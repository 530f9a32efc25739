//! Lookup of a package in the local install index, a TOML document that
//! the manifest installer maintains. The caller reads the file; parsing
//! and navigation go through the TOML crate, behind trusted declarations.
use crate::records::QueryResult;
use vstd::prelude::*;
use vstd::string::StringExecFns;

verus! {

#[verifier::external_type_specification]
#[verifier::external_body]
pub struct ExTomlValue(toml::Value);

#[verifier::external_type_specification]
#[verifier::external_body]
#[verifier::reject_recursive_types(K)]
#[verifier::reject_recursive_types(V)]
pub struct ExTomlMap<K, V>(toml::map::Map<K, V>);

/// Relies on `toml::de::from_str::<toml::Value>`: parses TOML text into a
/// value tree, or fails on malformed text.
#[verifier::external_body]
fn toml_parse(s: &str) -> Option<toml::Value> {
    toml::from_str::<toml::Value>(s).ok()
}

/// Relies on `toml::Value::as_table`: the table inside a table value,
/// nothing for any other kind of value.
#[verifier::external_body]
fn toml_as_table<'a>(v: &'a toml::Value) -> Option<&'a toml::map::Map<String, toml::Value>> {
    v.as_table()
}

/// Relies on `toml::map::Map::get`: the value stored under the key, if
/// the table holds one.
#[verifier::external_body]
fn toml_get<'a>(t: &'a toml::map::Map<String, toml::Value>, key: &str) -> Option<
    &'a toml::Value,
> {
    t.get(key)
}

/// Relies on `toml::Value::as_str`: the text inside a string value,
/// nothing for any other kind of value.
#[verifier::external_body]
fn toml_as_str<'a>(v: &'a toml::Value) -> Option<&'a str> {
    v.as_str()
}

/// The string under `key` of the entry's table, or empty when the key is
/// absent or holds no string.
fn entry_string(entry: &toml::map::Map<String, toml::Value>, key: &str) -> String {
    match toml_get(entry, key) {
        Option::Some(v) => match toml_as_str(v) {
            Option::Some(s) => s.to_owned(),
            Option::None => String::new(),
        },
        Option::None => String::new(),
    }
}

/// Look `search_term` up in the install index text. The index decides
/// whether the package is there and what version and description it
/// carries; a found package is always reported installed, with a full
/// score.
pub fn query_charon(search_term: &str, index_text: &str) -> (r: Option<QueryResult>)
    ensures
        match r {
            Option::Some(q) => q@.pkg_name == search_term@ && q@.is_installed && q@.score
                == 100,
            Option::None => true,
        },
{
    let parsed = match toml_parse(index_text) {
        Option::Some(t) => t,
        Option::None => {
            return Option::None;
        },
    };
    let table = match toml_as_table(&parsed) {
        Option::Some(t) => t,
        Option::None => {
            return Option::None;
        },
    };
    let entry_val = match toml_get(table, search_term) {
        Option::Some(e) => e,
        Option::None => {
            return Option::None;
        },
    };
    let entry = match toml_as_table(entry_val) {
        Option::Some(e) => e,
        Option::None => {
            return Option::None;
        },
    };
    let pkg_version = entry_string(entry, "version");
    let pkg_description = entry_string(entry, "description");
    Option::Some(
        QueryResult {
            is_installed: true,
            pkg_name: search_term.to_owned(),
            pkg_version,
            pkg_description,
            score: 100,
        },
    )
}

} // verus!
