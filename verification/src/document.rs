//! TOML documents, as the `toml` crate reads them.
//!
//! Everything that is believed of that crate without proof stands in this file.

use vstd::prelude::*;

verus! {

/// The `toml` crate's map from keys to values.
#[verifier::external_type_specification]
#[verifier::external_body]
#[verifier::reject_recursive_types(K)]
#[verifier::reject_recursive_types(V)]
pub struct ExTomlMap<K, V>(toml::map::Map<K, V>);

/// The `toml` crate's type of a value.
#[verifier::external_type_specification]
#[verifier::external_body]
pub struct ExTomlValue(toml::Value);

/// A value in a document. Of those that no setting can have, only the kind is
/// kept.
#[derive(Debug)]
pub enum DocValue {
    Text(String),
    Integer(i64),
    Float,
    Boolean(bool),
    Datetime,
    Array,
    Table(toml::Table),
}

/// What a [`DocValue`] holds.
pub ghost enum DocModel {
    Text(Seq<char>),
    Integer(i64),
    Float,
    Boolean(bool),
    Datetime,
    Array,
    Table(Map<Seq<char>, DocModel>),
}

impl View for DocValue {
    type V = DocModel;

    open spec fn view(&self) -> DocModel {
        match *self {
            DocValue::Text(text) => DocModel::Text(text@),
            DocValue::Integer(n) => DocModel::Integer(n),
            DocValue::Float => DocModel::Float,
            DocValue::Boolean(b) => DocModel::Boolean(b),
            DocValue::Datetime => DocModel::Datetime,
            DocValue::Array => DocModel::Array,
            DocValue::Table(table) => DocModel::Table(table_entries(table)),
        }
    }
}

/// The entries of a table, by their keys.
pub uninterp spec fn table_entries(table: toml::Table) -> Map<Seq<char>, DocModel>;

/// What the `toml` crate makes of a text: the entries of the document's top-level
/// table where the text is valid TOML, and else its message of what is wrong.
pub uninterp spec fn toml_document(text: Seq<char>) -> Result<
    Map<Seq<char>, DocModel>,
    Seq<char>,
>;

/// The entry that `entries` has for `key`, if it has one.
pub open spec fn entry(entries: Map<Seq<char>, DocModel>, key: Seq<char>) -> Option<DocModel> {
    if entries.contains_key(key) {
        Some(entries[key])
    } else {
        None
    }
}

/// Reads a document, by `toml`'s `FromStr` for `Table`. Claimed is only that
/// the outcome, be it the table or the message of the error, goes by the text
/// alone; which texts are valid TOML, and what they say, is left to the crate.
#[verifier::external_body]
pub(crate) fn parse_document(text: &str) -> (r: Result<toml::Table, String>)
    ensures
        match r {
            Ok(table) => toml_document(text@) == Ok::<Map<Seq<char>, DocModel>, Seq<char>>(
                table_entries(table),
            ),
            Err(message) => toml_document(text@) == Err::<Map<Seq<char>, DocModel>, Seq<char>>(
                message@,
            ),
        },
{
    match text.parse::<toml::Table>() {
        Ok(table) => Ok(table),
        Err(err) => Err(err.to_string()),
    }
}

/// Looks a key up, by `toml`'s `Map::get`. Claimed is that it finds the table's
/// entry for that key, and nothing where the table has none.
#[verifier::external_body]
pub(crate) fn table_get(table: &toml::Table, key: &str) -> (r: Option<DocValue>)
    ensures
        match r {
            Some(value) => entry(table_entries(*table), key@) == Some(value@),
            None => entry(table_entries(*table), key@) is None,
        },
{
    match table.get(key)? {
        toml::Value::String(text) => Some(DocValue::Text(text.clone())),
        toml::Value::Integer(n) => Some(DocValue::Integer(*n)),
        toml::Value::Float(_) => Some(DocValue::Float),
        toml::Value::Boolean(b) => Some(DocValue::Boolean(*b)),
        toml::Value::Datetime(_) => Some(DocValue::Datetime),
        toml::Value::Array(_) => Some(DocValue::Array),
        toml::Value::Table(inner) => Some(DocValue::Table(inner.clone())),
    }
}

/// A table has an entry for a key exactly where it holds the key, and then it is
/// the value under that key.
pub proof fn law_entries(entries: Map<Seq<char>, DocModel>, key: Seq<char>)
    ensures
        entry(entries, key) is Some <==> entries.contains_key(key),
        entries.contains_key(key) ==> entry(entries, key) == Some(entries[key]),
{
}

} // verus!
