//! The manifest document, held by toml_edit. What the library relies on of
//! that crate is stated here, over names for what its values hold.

use vstd::prelude::*;

use toml_edit::{DocumentMut, Table, TomlError};

use crate::model::{keys_of, views, without_key};

verus! {

#[verifier::external_type_specification]
#[verifier::external_body]
pub struct ExDocumentMut(toml_edit::DocumentMut);

#[verifier::external_type_specification]
#[verifier::external_body]
pub struct ExTable(toml_edit::Table);

#[verifier::external_type_specification]
#[verifier::external_body]
pub struct ExTomlError(toml_edit::TomlError);

/// Whether `text` is well-formed TOML.
pub uninterp spec fn parses(text: Seq<char>) -> bool;

/// The document that toml_edit makes of well-formed `text`.
pub uninterp spec fn parsed(text: Seq<char>) -> DocumentMut;

/// Whether the document's root has a `dependencies` item.
pub uninterp spec fn has_dependencies(doc: DocumentMut) -> bool;

/// Whether the document's `dependencies` item is a table with a header.
pub uninterp spec fn dependencies_are_table(doc: DocumentMut) -> bool;

/// The entries of the document's dependency table, in order: each key with
/// the text of its definition.
pub uninterp spec fn dependency_entries(doc: DocumentMut) -> Seq<(Seq<char>, Seq<char>)>;

/// The entries of a table, in order: each key with the text of its definition.
pub uninterp spec fn table_entries(t: Table) -> Seq<(Seq<char>, Seq<char>)>;

/// The document with its dependency table replaced whole by `t`, all else kept.
pub uninterp spec fn with_dependencies(doc: DocumentMut, t: Table) -> DocumentMut;

/// The text that toml_edit writes for a document.
pub uninterp spec fn rendered(doc: DocumentMut) -> Seq<char>;

/// Relies on `DocumentMut::from_str`: it fails exactly on malformed text and
/// otherwise depends on the text alone.
#[verifier::external_body]
pub(crate) fn parse_document(text: &str) -> (r: Result<DocumentMut, TomlError>)
    ensures
        r is Ok <==> parses(text@),
        r matches Ok(d) ==> d == parsed(text@),
{
    text.parse::<DocumentMut>()
}

/// Relies on `Table::get` of the root, `Item::as_table` and `Table::iter`: the
/// `dependencies` item, whether it is a table, and its keys in table order.
#[verifier::external_body]
pub(crate) fn dependency_keys(doc: &DocumentMut) -> (r: Option<Option<Vec<String>>>)
    ensures
        r is None <==> !has_dependencies(*doc),
        (r matches Some(Some(_))) <==> dependencies_are_table(*doc),
        r matches Some(Some(ks)) ==> views(ks@) == keys_of(dependency_entries(*doc)),
{
    match doc.get("dependencies") {
        None => None,
        Some(item) => match item.as_table() {
            None => Some(None),
            Some(t) => Some(Some(t.iter().map(|(k, _)| k.to_owned()).collect())),
        },
    }
}

/// Relies on `Item::as_table` and the derived `Table::clone`: a deep copy of
/// the dependency table, so that putting it back leaves the document as it is.
#[verifier::external_body]
pub(crate) fn snapshot_dependencies(doc: &DocumentMut) -> (r: Table)
    requires
        dependencies_are_table(*doc),
    ensures
        table_entries(r) == dependency_entries(*doc),
        with_dependencies(*doc, r) == *doc,
{
    doc["dependencies"].as_table().unwrap().clone()
}

/// Relies on `Table::remove`: the entry of `key` leaves the dependency table,
/// the others keep their order and definitions, and nothing outside the table
/// changes.
#[verifier::external_body]
pub(crate) fn remove_dependency(doc: &mut DocumentMut, key: &str)
    requires
        dependencies_are_table(*old(doc)),
    ensures
        dependencies_are_table(*final(doc)),
        dependency_entries(*final(doc)) == without_key(dependency_entries(*old(doc)), key@),
        forall|t: Table| #[trigger]
            with_dependencies(*final(doc), t) == with_dependencies(*old(doc), t),
{
    if let Some(deps) = doc["dependencies"].as_table_mut() {
        deps.remove(key);
    }
}

/// Relies on `Item::as_table_mut`: the dependency table is replaced whole by
/// `t`.
#[verifier::external_body]
pub(crate) fn restore_dependencies(doc: &mut DocumentMut, t: Table)
    requires
        dependencies_are_table(*old(doc)),
    ensures
        dependencies_are_table(*final(doc)),
        dependency_entries(*final(doc)) == table_entries(t),
        *final(doc) == with_dependencies(*old(doc), t),
{
    if let Some(deps) = doc["dependencies"].as_table_mut() {
        *deps = t;
    }
}

/// Relies on `DocumentMut`'s `Display`: the document written back as text.
#[verifier::external_body]
pub(crate) fn render_document(doc: &DocumentMut) -> (r: String)
    ensures
        r@ == rendered(*doc),
{
    doc.to_string()
}

} // verus!
