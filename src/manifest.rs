//! The manifest: a TOML document whose `package.metadata.feature_groups`
//! table declares the groups.
use vstd::prelude::*;
use vstd::string::*;
use crate::error::{Failure, FeatureGroupError};

verus! {

/// A TOML value, as far as the group declarations need to see into it.
#[derive(Debug)]
pub enum TomlValue {
    Str(String),
    Array(Vec<TomlValue>),
    /// The entries of a table, in the order in which the document gives them.
    Table(Vec<(String, TomlValue)>),
    /// An integer, float, boolean or date-time, in its TOML rendering.
    Other(String),
}

#[verifier::external_type_specification]
#[verifier::external_body]
pub struct ExTomlValue(toml::Value);

/// The tree of the TOML document `text`, or `None` where `text` is not a
/// well-formed TOML document.
pub uninterp spec fn toml_document(text: Seq<char>) -> Option<TomlValue>;

/// Carries a value parsed by `toml` over into a `TomlValue`, variant for
/// variant; non-string scalars keep their TOML rendering (toml's `Display`).
#[verifier::external_body]
fn tree_of(v: toml::Value) -> TomlValue {
    match v {
        toml::Value::String(s) => TomlValue::Str(s),
        toml::Value::Array(a) => TomlValue::Array(a.into_iter().map(tree_of).collect()),
        toml::Value::Table(t) => TomlValue::Table(t.into_iter().map(|(k, x)| (k, tree_of(x))).collect()),
        other => TomlValue::Other(other.to_string()),
    }
}

/// Relies on `toml::Table::from_str` (with `preserve_order`, entries keep
/// the document's order): parses a whole TOML document, or gives the
/// parser's message.
#[verifier::external_body]
fn parse_document(text: &str) -> (r: Result<TomlValue, String>)
    ensures
        r is Ok <==> toml_document(text@) is Some,
        r matches Ok(v) ==> toml_document(text@) == Some(v),
{
    match text.parse::<toml::Table>() {
        Ok(t) => Ok(tree_of(toml::Value::Table(t))),
        Err(e) => Err(e.to_string()),
    }
}

/// The value of the first entry named `key`.
pub open spec fn lookup(entries: Seq<(String, TomlValue)>, key: Seq<char>) -> Option<TomlValue>
    decreases entries.len(),
{
    if entries.len() == 0 {
        None
    } else if entries[0].0@ == key {
        Some(entries[0].1)
    } else {
        lookup(entries.drop_first(), key)
    }
}

/// The value under `key` where `v` is a table that has it.
pub open spec fn table_entry(v: TomlValue, key: Seq<char>) -> Option<TomlValue> {
    match v {
        TomlValue::Table(entries) => lookup(entries@, key),
        _ => None,
    }
}

/// The group declarations of a parsed manifest: none where the path
/// `package.metadata.feature_groups` leads nowhere, `None` where it leads to
/// something other than a table.
pub open spec fn groups_table(doc: TomlValue) -> Option<Seq<(String, TomlValue)>> {
    match table_entry(doc, "package"@) {
        None => Some(Seq::empty()),
        Some(package) => match table_entry(package, "metadata"@) {
            None => Some(Seq::empty()),
            Some(metadata) => match table_entry(metadata, "feature_groups"@) {
                None => Some(Seq::empty()),
                Some(TomlValue::Table(groups)) => Some(groups@),
                Some(_) => None,
            },
        },
    }
}

/// What reading the manifest `text` yields.
pub open spec fn manifest_groups(text: Seq<char>) -> Option<Seq<(String, TomlValue)>> {
    match toml_document(text) {
        None => None,
        Some(doc) => groups_table(doc),
    }
}

/// Takes the value under `key` out of `v`, where `v` is a table that has it.
fn take_entry(v: TomlValue, key: &str) -> (r: Option<TomlValue>)
    ensures
        r == table_entry(v, key@),
{
    match v {
        TomlValue::Table(mut entries) => {
            let ghost all = entries@;
            let wanted = String::from_str(key);
            let mut i: usize = 0;
            assert(all.skip(0) =~= all);
            while i < entries.len()
                invariant
                    entries@ == all,
                    wanted@ == key@,
                    table_entry(v, key@) == lookup(all, key@),
                    i <= all.len(),
                    lookup(all, key@) == lookup(all.skip(i as int), key@),
                decreases entries.len() - i,
            {
                assert(all.skip(i as int).drop_first() =~= all.skip(i + 1));
                assert(all.skip(i as int)[0] == all[i as int]);
                if entries[i].0 == wanted {
                    let (_, value) = entries.remove(i);
                    assert(value == all[i as int].1);
                    return Some(value);
                }
                i += 1;
            }
            None
        },
        _ => None,
    }
}

/// Takes the group declarations out of a parsed manifest.
pub fn feature_groups(doc: TomlValue) -> (r: Result<Vec<(String, TomlValue)>, FeatureGroupError>)
    ensures
        match groups_table(doc) {
            Some(groups) => r matches Ok(v) && v@ == groups,
            None => r matches Err(e) && e@ == Failure::Malformed,
        },
{
    let package = match take_entry(doc, "package") {
        Some(p) => p,
        None => return Ok(Vec::new()),
    };
    let metadata = match take_entry(package, "metadata") {
        Some(m) => m,
        None => return Ok(Vec::new()),
    };
    match take_entry(metadata, "feature_groups") {
        None => Ok(Vec::new()),
        Some(TomlValue::Table(groups)) => Ok(groups),
        Some(_) => Err(
            FeatureGroupError::ManifestMalformed {
                reason: String::from_str("package.metadata.feature_groups should be a table"),
            },
        ),
    }
}

/// Reads the group declarations of the manifest `text`.
pub fn read_manifest(text: &str) -> (r: Result<Vec<(String, TomlValue)>, FeatureGroupError>)
    ensures
        match manifest_groups(text@) {
            Some(groups) => r matches Ok(v) && v@ == groups,
            None => r matches Err(e) && e@ == Failure::Malformed,
        },
{
    match parse_document(text) {
        Ok(doc) => feature_groups(doc),
        Err(reason) => Err(FeatureGroupError::ManifestMalformed { reason }),
    }
}

} // verus!
