use vstd::prelude::*;

use crate::message::{Message, MessageView};

verus! {

/// The extraction contract: convert one raw message into a typed value, or
/// report a typed rejection. A rejection is always handled locally by the
/// dispatch loop — the failing handler is skipped and its siblings still run.
pub trait FromMessage: Sized {
    /// The typed rejection reported when extraction fails.
    type Rejection;

    /// Whether extraction succeeds on a message of this shape.
    spec fn extractable(m: MessageView) -> bool;

    /// What a successfully extracted value guarantees about the message it came from.
    spec fn extracted_from(&self, m: MessageView) -> bool;

    /// Which rejection a message of this shape is refused with.
    spec fn rejection_of(m: MessageView) -> Self::Rejection;

    fn from_message(m: &Message) -> (r: Result<Self, Self::Rejection>)
        ensures
            r is Ok <==> Self::extractable(m@),
            r matches Ok(v) ==> v.extracted_from(m@),
            r matches Err(e) ==> e == Self::rejection_of(m@),
    ;
}

/// Identity extraction: always succeeds and wraps an independent copy of the
/// message, bytes and metadata untouched.
pub struct Raw(pub Message);

/// Raw extraction cannot fail; this rejection is never produced.
#[derive(Clone, Copy, Debug, PartialEq, Eq, Structural)]
pub enum RawError {
    Infallible,
}

impl FromMessage for Raw {
    type Rejection = RawError;

    open spec fn extractable(m: MessageView) -> bool {
        true
    }

    open spec fn extracted_from(&self, m: MessageView) -> bool {
        self.0@ == m
    }

    open spec fn rejection_of(m: MessageView) -> RawError {
        arbitrary()
    }

    fn from_message(m: &Message) -> (r: Result<Self, RawError>) {
        Ok(Raw(m.duplicate()))
    }
}

/// Which byte sequences the JSON decoder accepts as a document. Acceptance
/// depends on the bytes alone; the trusted decoder below applies this name.
pub uninterp spec fn json_parses(bytes: Seq<u8>) -> bool;

/// The string value stored under a top-level key of a JSON document, if the
/// bytes parse as an object holding a string there. Depends on the bytes and
/// the key alone; the trusted lookup below applies this name.
pub uninterp spec fn json_str_field(bytes: Seq<u8>, key: Seq<char>) -> Option<Seq<char>>;

/// Rejections of structured (JSON) extraction.
#[derive(Clone, Copy, Debug, PartialEq, Eq, Structural)]
pub enum JsonError {
    /// The payload bytes are not a JSON document the decoder accepts.
    ParseError,
    /// The message carries no payload at all.
    EmptyPayload,
}

#[verifier::external_type_specification]
#[verifier::external_body]
pub struct ExValue(serde_json::Value);

/// Relies on serde_json::Deserializer::from_slice and
/// serde_path_to_error::deserialize (driven to a serde_json::Value): whether
/// the bytes form an accepted JSON document depends on the bytes alone.
#[verifier::external_body]
pub(crate) fn decode_json_value(bytes: &[u8]) -> (r: Result<serde_json::Value, JsonError>)
    ensures
        r is Ok <==> json_parses(bytes@),
        r matches Err(e) ==> e == JsonError::ParseError,
{
    let de = &mut serde_json::Deserializer::from_slice(bytes);
    match serde_path_to_error::deserialize::<_, serde_json::Value>(de) {
        Ok(v) => Ok(v),
        Err(_) => Err(JsonError::ParseError),
    }
}

/// Relies on serde_json::Value::get and Value::as_str, applied to the document
/// decoded from the bytes: the string found under a top-level key depends on
/// the bytes and the key alone.
#[verifier::external_body]
pub(crate) fn decode_json_str_field(bytes: &[u8], key: &str) -> (r: Option<String>)
    ensures
        r matches Some(s) ==> json_str_field(bytes@, key@) == Some(s@),
        r is None ==> json_str_field(bytes@, key@) is None,
        r is Some ==> json_parses(bytes@),
{
    match decode_json_value(bytes) {
        Ok(v) => match v.get(key) {
            Some(f) => match f.as_str() {
                Some(s) => Some(s.to_string()),
                None => None,
            },
            None => None,
        },
        Err(_) => None,
    }
}

/// A typed value decoded from a JSON payload.
#[derive(Clone, Copy, Debug, PartialEq, Eq)]
pub struct Json<T>(pub T);

impl Json<serde_json::Value> {
    /// Decodes the bytes as one JSON document.
    pub fn from_bytes(bytes: &[u8]) -> (r: Result<Self, JsonError>)
        ensures
            r is Ok <==> json_parses(bytes@),
            r matches Err(e) ==> e == JsonError::ParseError,
    {
        match decode_json_value(bytes) {
            Ok(v) => Ok(Json(v)),
            Err(e) => Err(e),
        }
    }
}

impl FromMessage for Json<serde_json::Value> {
    type Rejection = JsonError;

    open spec fn extractable(m: MessageView) -> bool {
        m.payload matches Some(b) && json_parses(b)
    }

    open spec fn extracted_from(&self, m: MessageView) -> bool {
        true
    }

    open spec fn rejection_of(m: MessageView) -> JsonError {
        if m.payload is None {
            JsonError::EmptyPayload
        } else {
            JsonError::ParseError
        }
    }

    fn from_message(m: &Message) -> (r: Result<Self, JsonError>) {
        match &m.payload {
            None => Err(JsonError::EmptyPayload),
            Some(p) => Json::from_bytes(p.as_slice()),
        }
    }
}

} // verus!
