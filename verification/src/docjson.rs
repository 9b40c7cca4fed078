//! The captured document: parsing, metadata stamping and serialization.
//!
//! The document's schema is an external contract: it is carried as an
//! opaque structured value, and this module only parses it, overwrites its
//! metadata sub-field with the root package's plain name, version and
//! authors, and serializes it back.

use vstd::prelude::*;
use crate::errors::PipelineError;
use crate::metadata::AbiMetadata;
use crate::symbols::views_of;

verus! {

/// True when the bytes parse as a document whose top level is an object:
/// a function of the bytes alone.
pub uninterp spec fn json_object_parses(bytes: Seq<u8>) -> bool;

/// The captured document with the field `key` overwritten by the metadata
/// object built from the given name, version and authors, re-serialized
/// with the stable pretty formatter. Parsing, construction, insertion and
/// serialization each depend on their arguments alone, so the stamped
/// output is a function of them.
pub uninterp spec fn stamped_of(
    captured: Seq<u8>,
    key: Seq<char>,
    name: Option<Seq<u8>>,
    version: Option<Seq<u8>>,
    authors: Seq<Seq<u8>>,
) -> Seq<u8>;

/// Relies on `serde_json::from_slice`, `serde_json::Map::insert` (building
/// the metadata object and, through `Value::as_object_mut`, placing it),
/// and `serde_json::to_string_pretty`: parses the captured bytes,
/// overwrites the field `key` with the metadata object and re-serializes.
/// Exactly the captured bytes whose top level is no object are a parse
/// failure; serializing a document value cannot fail in this library, so
/// success is owed otherwise.
#[verifier::external_body]
fn stamp_bytes(
    captured: &Vec<u8>,
    key: &str,
    name: &Option<Vec<u8>>,
    version: &Option<Vec<u8>>,
    authors: &Vec<Vec<u8>>,
) -> (r: Result<Vec<u8>, PipelineError>)
    ensures
        r matches Ok(b) ==> json_object_parses(captured@) && b@ == stamped_of(
            captured@,
            key@,
            opt_view(*name),
            opt_view(*version),
            views_of(authors@),
        ),
        r matches Err(e) ==> !json_object_parses(captured@) && e
            matches PipelineError::DocumentParse,
{
    let mut doc: serde_json::Value = match serde_json::from_slice(captured.as_slice()) {
        Ok(v @ serde_json::Value::Object(_)) => v,
        _ => return Err(PipelineError::DocumentParse),
    };
    if let Some(map) = doc.as_object_mut() {
        map.insert(key.to_string(), metadata_value(name, version, authors));
    }
    match serde_json::to_string_pretty(&doc) {
        Ok(s) => Ok(s.into_bytes()),
        Err(_) => Err(PipelineError::DocumentParse),
    }
}

#[verifier::external_type_specification]
#[verifier::external_body]
pub struct ExJsonValue(serde_json::Value);

/// Relies on `serde_json::Map::insert`: builds the metadata object from the
/// plain name, version and authors.
#[verifier::external_body]
fn metadata_value(
    name: &Option<Vec<u8>>,
    version: &Option<Vec<u8>>,
    authors: &Vec<Vec<u8>>,
) -> (r: serde_json::Value) {
    let mut meta = serde_json::Map::new();
    meta.insert("name".to_string(), text_or_null(name));
    meta.insert("version".to_string(), text_or_null(version));
    let list = authors.iter().map(
        |a| serde_json::Value::String(String::from_utf8_lossy(a.as_slice()).into_owned()),
    ).collect();
    meta.insert("authors".to_string(), serde_json::Value::Array(list));
    serde_json::Value::Object(meta)
}

/// Relies on `serde_json::Value` construction: an optional text as a JSON
/// string or null.
#[verifier::external_body]
fn text_or_null(o: &Option<Vec<u8>>) -> (r: serde_json::Value) {
    match o {
        Some(b) => serde_json::Value::String(String::from_utf8_lossy(b.as_slice()).into_owned()),
        None => serde_json::Value::Null,
    }
}

/// The view of an optional byte vector.
pub open spec fn opt_view(o: Option<Vec<u8>>) -> Option<Seq<u8>> {
    match o {
        Some(v) => Some(v@),
        None => None,
    }
}

/// The document text stamped with the given metadata: the captured document
/// with its `metadata` field overwritten, in the stable pretty formatting.
pub open spec fn stamped_document(
    captured: Seq<u8>,
    name: Option<Seq<u8>>,
    version: Option<Seq<u8>>,
    authors: Seq<Seq<u8>>,
) -> Seq<u8> {
    stamped_of(captured, "metadata"@, name, version, authors)
}

/// Parses the captured document, overwrites its metadata field with the
/// metadata derived from the root package, and serializes it back with
/// stable formatting. Exactly the captured streams whose top level is no
/// object fail, with a parse error; every other capture is stamped.
pub fn stamp_document(captured: &Vec<u8>, meta: &AbiMetadata) -> (r: Result<Vec<u8>, PipelineError>)
    ensures
        r matches Ok(b) ==> json_object_parses(captured@) && b@ == stamped_document(
            captured@,
            opt_view(meta.name),
            opt_view(meta.version),
            views_of(meta.authors@),
        ),
        r matches Err(e) ==> !json_object_parses(captured@) && e
            matches PipelineError::DocumentParse,
{
    stamp_bytes(captured, "metadata", &meta.name, &meta.version, &meta.authors)
}

} // verus!
