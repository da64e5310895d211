//! Reading a stored object document.
//!
//! The store hands out BSON documents. This module looks up the parts that
//! normalisation needs, by the keys under which the store keeps them, and
//! passes the result to the normaliser. A part that is absent, or of another
//! kind than the one looked for, reads as `None`.
//!
//! What a document holds is known to the verifier through six names, one for
//! each kind of entry that is read here: nothing is said of what they are for
//! a given document, only that a lookup gives what they hold. The lookups
//! themselves are calls into the `bson` crate. Their contracts are taken on
//! trust from that crate's source; everything else in this module is proved
//! from them.

use vstd::prelude::*;
use bson::Document;
use crate::error::MalformedRecord;
use crate::hex::{hex_encode, hex_of_bytes};
use crate::normalizer::{normalize, normalized};
use crate::object::SuiIndexedObject;
use crate::raw::{
    field_pairs, ContentShapes, OwnerShapes, RawContent, RawField, RawObject, RawOwner,
    RawRecord, RawShared,
};

verus! {

/// `bson::Document`, an insertion-ordered map from keys to BSON values. The
/// verifier sees nothing of its inside.
#[verifier::external_type_specification]
#[verifier::external_body]
pub struct ExDocument(bson::Document);

/// The string entries of a document: for each key whose value is a BSON
/// string, that string.
pub uninterp spec fn document_strings(d: Document) -> Map<Seq<char>, Seq<char>>;

/// The 64-bit integer entries of a document, by key.
pub uninterp spec fn document_int64s(d: Document) -> Map<Seq<char>, i64>;

/// The nested documents of a document, by key.
pub uninterp spec fn document_children(d: Document) -> Map<Seq<char>, Document>;

/// The object-id entries of a document, by key, each as its bytes.
pub uninterp spec fn document_object_ids(d: Document) -> Map<Seq<char>, Seq<u8>>;

/// The binary entries of generic subtype of a document, by key.
pub uninterp spec fn document_binaries(d: Document) -> Map<Seq<char>, Seq<u8>>;

/// All entries of a document in its own order, each as its key and the text
/// that the value's `Display` writes.
pub uninterp spec fn document_rendered(d: Document) -> Seq<(Seq<char>, Seq<char>)>;

/// The value under `key`, if the map has one.
pub open spec fn entry<V>(m: Map<Seq<char>, V>, key: Seq<char>) -> Option<V> {
    if m.contains_key(key) {
        Some(m[key])
    } else {
        None
    }
}

/// Calls `Document::get_str`, which returns the string under `key` where the
/// document has an entry there and the entry is a string, and an error
/// otherwise; the error reads as `None` here.
///
/// On trust: the result is what [`document_strings`] holds under `key`.
#[verifier::external_body]
fn get_text(d: &Document, key: &str) -> (r: Option<String>)
    ensures
        r.deep_view() == entry(document_strings(*d), key@),
{
    d.get_str(key).ok().map(String::from)
}

/// Calls `Document::get_i64`, which returns the number under `key` where the
/// entry is a 64-bit integer, and an error otherwise.
///
/// On trust: the result is what [`document_int64s`] holds under `key`.
#[verifier::external_body]
fn get_int64(d: &Document, key: &str) -> (r: Option<i64>)
    ensures
        r == entry(document_int64s(*d), key@),
{
    d.get_i64(key).ok()
}

/// Calls `Document::get_document`, which returns the document under `key`
/// where the entry is a nested document, and an error otherwise.
///
/// On trust: the result is what [`document_children`] holds under `key`.
#[verifier::external_body]
fn get_child<'a>(d: &'a Document, key: &str) -> (r: Option<&'a Document>)
    ensures
        r is Some <==> document_children(*d).contains_key(key@),
        r matches Some(child) ==> *child == document_children(*d)[key@],
{
    d.get_document(key).ok()
}

/// Calls `Document::get_object_id`, which returns the object id under `key`
/// where the entry is one, and an error otherwise; `ObjectId::bytes` then
/// gives the twelve bytes of the id.
///
/// On trust: the result is what [`document_object_ids`] holds under `key`.
#[verifier::external_body]
fn get_object_id(d: &Document, key: &str) -> (r: Option<Vec<u8>>)
    ensures
        r is Some <==> document_object_ids(*d).contains_key(key@),
        r matches Some(bytes) ==> bytes@ == document_object_ids(*d)[key@],
{
    d.get_object_id(key).ok().map(|id| id.bytes().to_vec())
}

/// Calls `Document::get_binary_generic`, which returns the bytes under `key`
/// where the entry is binary data of the generic subtype, and an error
/// otherwise.
///
/// On trust: the result is what [`document_binaries`] holds under `key`.
#[verifier::external_body]
fn get_binary(d: &Document, key: &str) -> (r: Option<Vec<u8>>)
    ensures
        r is Some <==> document_binaries(*d).contains_key(key@),
        r matches Some(bytes) ==> bytes@ == document_binaries(*d)[key@],
{
    d.get_binary_generic(key).ok().cloned()
}

/// Calls `Document::iter` and walks it to the end, which gives every entry
/// in the order in which the document keeps them; each value is turned into
/// text by `to_string`, that is by the `Display` of `Bson`.
///
/// On trust: the names and values of the result are the pairs of
/// [`document_rendered`], in order.
#[verifier::external_body]
fn rendered_entries(d: &Document) -> (r: Vec<RawField>)
    ensures
        field_pairs(r@) == document_rendered(*d),
{
    d.iter().map(|(key, value)| RawField { name: key.clone(), value: value.to_string() }).collect()
}

/// The owner shapes that an owner document shows.
pub open spec fn owner_shapes(owner: Document) -> OwnerShapes {
    OwnerShapes {
        address_owner: entry(document_strings(owner), "addressOwner"@),
        object_owner: entry(document_strings(owner), "objectOwner"@),
        shared: match entry(document_children(owner), "shared"@) {
            Some(shared) => Some(entry(document_int64s(shared), "initial_shared_version"@)),
            None => None,
        },
    }
}

/// The content shapes that a content document shows.
pub open spec fn content_shapes(content: Document) -> ContentShapes {
    ContentShapes {
        data_type: entry(document_strings(content), "dataType"@),
        fields: match entry(document_children(content), "fields"@) {
            Some(fields) => Some(document_rendered(fields)),
            None => None,
        },
    }
}

/// The raw record that a stored object document holds.
///
/// The id is the hexadecimal text of the object id under `_id`; the version
/// is the number under `version_`; the binary form is the `bcs_bytes` of the
/// nested document `bcs`.
pub open spec fn record_of(d: Document) -> RawRecord {
    RawRecord {
        id: match entry(document_object_ids(d), "_id"@) {
            Some(bytes) => Some(hex_of_bytes(bytes)),
            None => None,
        },
        version: entry(document_int64s(d), "version_"@),
        digest: entry(document_strings(d), "digest"@),
        type_: entry(document_strings(d), "type"@),
        owner: match entry(document_children(d), "owner"@) {
            Some(owner) => Some(owner_shapes(owner)),
            None => None,
        },
        previous_transaction: entry(document_strings(d), "previous_transaction"@),
        storage_rebate: entry(document_int64s(d), "storage_rebate"@),
        content: match entry(document_children(d), "content"@) {
            Some(content) => Some(content_shapes(content)),
            None => None,
        },
        bcs: match entry(document_children(d), "bcs"@) {
            Some(bcs) => entry(document_binaries(bcs), "bcs_bytes"@),
            None => None,
        },
    }
}

/// Reads the shapes of an owner document.
pub fn read_owner(owner: &Document) -> (r: RawOwner)
    ensures
        r@ == owner_shapes(*owner),
{
    RawOwner {
        address_owner: get_text(owner, "addressOwner"),
        object_owner: get_text(owner, "objectOwner"),
        shared: match get_child(owner, "shared") {
            Some(shared) => Some(
                RawShared { initial_shared_version: get_int64(shared, "initial_shared_version") },
            ),
            None => None,
        },
    }
}

/// Reads the shapes of a content document.
pub fn read_content(content: &Document) -> (r: RawContent)
    ensures
        r@ == content_shapes(*content),
{
    RawContent {
        data_type: get_text(content, "dataType"),
        fields: match get_child(content, "fields") {
            Some(fields) => Some(rendered_entries(fields)),
            None => None,
        },
    }
}

/// Reads a stored object document into a raw record.
pub fn read_record(o: &Document) -> (r: RawObject)
    ensures
        r@ == record_of(*o),
{
    RawObject {
        id: match get_object_id(o, "_id") {
            Some(bytes) => Some(hex_encode(&bytes)),
            None => None,
        },
        version: get_int64(o, "version_"),
        digest: get_text(o, "digest"),
        type_: get_text(o, "type"),
        owner: match get_child(o, "owner") {
            Some(owner) => Some(read_owner(owner)),
            None => None,
        },
        previous_transaction: get_text(o, "previous_transaction"),
        storage_rebate: get_int64(o, "storage_rebate"),
        content: match get_child(o, "content") {
            Some(content) => Some(read_content(content)),
            None => None,
        },
        bcs: match get_child(o, "bcs") {
            Some(bcs) => get_binary(bcs, "bcs_bytes"),
            None => None,
        },
    }
}

/// Normalises a stored object document: the normal form of the raw record
/// that the document holds, or the reason why that record has none.
pub fn parse(o: &Document) -> (r: Result<SuiIndexedObject, MalformedRecord>)
    ensures
        match normalized(record_of(*o)) {
            Ok(object) => r matches Ok(x) && x@ == object && x.well_formed(),
            Err(e) => r == Err::<SuiIndexedObject, MalformedRecord>(e),
        },
{
    let raw = read_record(o);
    normalize(&raw)
}

} // verus!
