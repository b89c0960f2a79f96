//! The records of a session's data buffer: JSON documents, kept as bytes.

use serde_json::Value;
use vstd::prelude::*;

verus! {

/// `serde_json::Value`, a JSON document in memory. Verus sees nothing
/// inside it.
#[verifier::external_type_specification]
#[verifier::external_body]
pub struct ExJsonValue(Value);

/// `serde_json::Error`, what the encoder and the decoder fail with.
#[verifier::external_type_specification]
#[verifier::external_body]
pub struct ExJsonError(serde_json::Error);

/// What a document holds, as the JSON text that `serde_json::to_vec` writes
/// for it; `None` where `to_vec` fails on it.
pub uninterp spec fn json_text(value: Value) -> Option<Seq<u8>>;

/// The document that `serde_json::from_slice` reads from a text; `None`
/// where the text is no JSON document.
pub uninterp spec fn json_value(text: Seq<u8>) -> Option<Value>;

/// The text `null`.
pub open spec fn null_text() -> Seq<u8> {
    seq![110u8, 117u8, 108u8, 108u8]
}

/// What a stored record reads as: the document that it spells, and the
/// document `null` where it spells none.
pub open spec fn record_value(text: Seq<u8>) -> Value {
    match json_value(text) {
        Some(value) => value,
        None => json_value(null_text())->0,
    }
}

/// `serde_json::to_vec`: the document as JSON text.
#[verifier::external_body]
fn encode(value: &Value) -> (text: Result<Vec<u8>, serde_json::Error>)
    ensures
        match text {
            Ok(bytes) => json_text(*value) == Some(bytes@),
            Err(_) => json_text(*value) is None,
        },
{
    serde_json::to_vec(value)
}

/// `serde_json::from_slice`: the document that a text spells.
#[verifier::external_body]
fn decode(text: &[u8]) -> (value: Result<Value, serde_json::Error>)
    ensures
        match value {
            Ok(document) => json_value(text@) == Some(document),
            Err(_) => json_value(text@) is None,
        },
{
    serde_json::from_slice(text)
}

/// `Value::default`: the document `Value::Null`, which is what the text
/// `null` spells.
#[verifier::external_body]
fn null_document() -> (document: Value)
    ensures
        json_value(null_text()) == Some(document),
{
    Value::default()
}

/// A pushed value could not be written as a record.
#[derive(Debug, Clone, Copy, PartialEq, Eq, Structural)]
pub struct SerializationError {}

impl SerializationError {
    /// The error in words: the one sentence that a caller shows for it.
    pub fn message(&self) -> (text: String)
        ensures
            text@ == "the value cannot be written as a record"@,
    {
        "the value cannot be written as a record".to_owned()
    }
}

/// What is stored for a value, told from what the encoder made of it: the
/// text, or an error where there is none.
pub fn stored_text(encoded: Option<Vec<u8>>) -> (record: Result<Vec<u8>, SerializationError>)
    ensures
        match encoded {
            Some(text) => record == Ok::<Vec<u8>, SerializationError>(text),
            None => record is Err,
        },
{
    match encoded {
        Some(text) => Ok(text),
        None => Err(SerializationError {  }),
    }
}

/// The record for a document: its JSON text.
pub fn serialize(value: &Value) -> (record: Result<Vec<u8>, SerializationError>)
    ensures
        match json_text(*value) {
            Some(text) => record is Ok && record->Ok_0@ == text,
            None => record is Err,
        },
{
    match encode(value) {
        Ok(text) => stored_text(Some(text)),
        Err(_) => stored_text(None),
    }
}

/// What a record reads as, told from what the decoder made of it: the
/// document that it read, or the fallback where it read none.
pub fn document_or(read: Option<Value>, fallback: Value) -> (document: Value)
    ensures
        document == match read {
            Some(found) => found,
            None => fallback,
        },
{
    match read {
        Some(found) => found,
        None => fallback,
    }
}

/// The document of a record: see [`record_value`].
pub fn deserialize(record: &[u8]) -> (document: Value)
    ensures
        document == record_value(record@),
{
    match decode(record) {
        Ok(document) => document_or(Some(document), null_document()),
        Err(_) => document_or(None, null_document()),
    }
}

/// The documents of records, one for each and in their order.
pub fn deserialize_all(records: &Vec<Vec<u8>>) -> (documents: Vec<Value>)
    ensures
        documents@.len() == records@.len(),
        forall|i: int|
            0 <= i < records@.len() ==> #[trigger] documents@[i] == record_value(
                records.deep_view()[i],
            ),
{
    let mut documents: Vec<Value> = Vec::new();
    let mut i: usize = 0;
    while i < records.len()
        invariant
            i <= records.len(),
            documents@.len() == i,
            forall|j: int|
                0 <= j < i ==> #[trigger] documents@[j] == record_value(records.deep_view()[j]),
        decreases records.len() - i,
    {
        assert(records.deep_view()[i as int] =~= records@[i as int]@);
        documents.push(deserialize(records[i].as_slice()));
        i = i + 1;
    }
    documents
}

} // verus!
