//! The body encoder: the parsed `Content-Type` header value selects one of
//! four encoding strategies — JSON, URL-encoded form, multipart file upload,
//! or raw bytes — and the raw body text is encoded accordingly.
//!
//! JSON is the only content type that permits an empty body (read-style JSON
//! endpoints take no payload); the other strategies structurally require one.
use vstd::prelude::*;
use vstd::string::StrSliceExecFns;

use crate::errors::RequestError;
use crate::query::pair_views;
use crate::query::parse_param;
use crate::query::query_model;
use crate::query::Pairs;
use crate::text::chars_of;
use crate::text::contains_sub;
use crate::text::has_sub;

verus! {

/// The closed classification of a `Content-Type` header value.
#[derive(Clone, Copy, Debug, PartialEq, Eq, Structural)]
pub enum ContentType {
    Json,
    Form,
    Multipart,
    Raw,
}

/// The classification of a `Content-Type` value, by substring match; the
/// header's parameters (such as a charset) play no part.
pub open spec fn ct_class(v: Seq<char>) -> ContentType {
    if has_sub(v, "application/json"@) {
        ContentType::Json
    } else if has_sub(v, "application/x-www-form-urlencoded"@) {
        ContentType::Form
    } else if has_sub(v, "multipart/form-data"@) {
        ContentType::Multipart
    } else {
        ContentType::Raw
    }
}

/// Classifies a `Content-Type` header value into one of the four encoding
/// strategies.
pub fn classify_content_type(v: &str) -> (r: ContentType)
    ensures
        r == ct_class(v@),
{
    let cs = chars_of(v);
    let json = chars_of("application/json");
    if contains_sub(&cs, &json) {
        return ContentType::Json;
    }
    let form = chars_of("application/x-www-form-urlencoded");
    if contains_sub(&cs, &form) {
        return ContentType::Form;
    }
    let multi = chars_of("multipart/form-data");
    if contains_sub(&cs, &multi) {
        return ContentType::Multipart;
    }
    ContentType::Raw
}

/// Whether a text parses as JSON. Names the outcome of `serde_json`'s parser,
/// which depends on the text alone.
pub uninterp spec fn json_ok(s: Seq<char>) -> bool;

/// The serialized form of the JSON value a text parses to. Names the outcome
/// of `serde_json`'s parser followed by its serializer, which depends on the
/// text alone.
pub uninterp spec fn json_canon(s: Seq<char>) -> Seq<char>;

/// Relies on `serde_json::from_str::<Value>` and `serde_json::to_string`:
/// parsing succeeds or fails on the text alone, and serializing the parsed
/// value yields JSON text that parses back to the same value (so canonizing
/// is idempotent).
#[verifier::external_body]
fn json_encode(s: &str) -> (r: Option<String>)
    ensures
        r is Some <==> json_ok(s@),
        r matches Some(t) ==> t@ == json_canon(s@),
        r is Some ==> json_ok(json_canon(s@)),
        r is Some ==> json_canon(json_canon(s@)) == json_canon(s@),
{
    match serde_json::from_str::<serde_json::Value>(s) {
        Ok(v) => match serde_json::to_string(&v) {
            Ok(t) => Some(t),
            Err(_) => None,
        },
        Err(_) => None,
    }
}

/// A named multipart form part: the field name, the attached file's name,
/// and its bytes.
#[derive(Debug)]
pub struct MultipartPart {
    pub field: String,
    pub file_name: String,
    pub content: Vec<u8>,
}

/// An encoded request body, ready for transport.
#[derive(Debug)]
pub enum BodyPayload {
    /// No body at all (a body-less JSON request).
    NoBody,
    /// A JSON payload, serialized.
    Json(String),
    /// URL-encoded form pairs, in order.
    Form(Vec<(String, String)>),
    /// One named file part.
    Multipart(MultipartPart),
    /// The raw body text, verbatim.
    Raw(String),
}

/// The spec-level form of an encoded body.
pub enum BodyModel {
    NoBody,
    Json(Seq<char>),
    Form(Pairs),
    Multipart { field: Seq<char>, file_name: Seq<char>, content: Seq<u8> },
    Raw(Seq<char>),
}

impl BodyPayload {
    /// The spec-level form of this payload.
    pub open spec fn model(self) -> BodyModel {
        match self {
            BodyPayload::NoBody => BodyModel::NoBody,
            BodyPayload::Json(t) => BodyModel::Json(t@),
            BodyPayload::Form(ps) => BodyModel::Form(pair_views(ps@)),
            BodyPayload::Multipart(p) => BodyModel::Multipart {
                field: p.field@,
                file_name: p.file_name@,
                content: p.content@,
            },
            BodyPayload::Raw(t) => BodyModel::Raw(t@),
        }
    }
}

/// The encoded body for a non-multipart content type: JSON permits an empty
/// body and must parse; form pairs must parse; raw text is taken verbatim.
pub open spec fn encode_model(ct: ContentType, input: Seq<char>) -> Result<BodyModel, RequestError> {
    match ct {
        ContentType::Json => {
            if input.len() == 0 {
                Ok(BodyModel::NoBody)
            } else if json_ok(input) {
                Ok(BodyModel::Json(json_canon(input)))
            } else {
                Err(RequestError::InvalidJson)
            }
        },
        ContentType::Form => {
            if input.len() == 0 {
                Err(RequestError::EmptyBody)
            } else {
                match query_model(input) {
                    Some(ps) => Ok(BodyModel::Form(ps)),
                    None => Err(RequestError::BadQueryPair),
                }
            }
        },
        ContentType::Raw => {
            if input.len() == 0 {
                Err(RequestError::EmptyBody)
            } else {
                Ok(BodyModel::Raw(input))
            }
        },
        ContentType::Multipart => Err(RequestError::EmptyBody),
    }
}

/// Encodes the raw body text under a non-multipart content type. An empty
/// body is allowed only for JSON; a non-empty JSON body is validated and
/// serialized so that decoding the payload yields the value the input parsed
/// to.
pub fn encode_body(ct: ContentType, input: &str) -> (r: Result<BodyPayload, RequestError>)
    requires
        ct != ContentType::Multipart,
    ensures
        match r {
            Ok(b) => encode_model(ct, input@) == Ok::<BodyModel, RequestError>(b.model()),
            Err(e) => encode_model(ct, input@) == Err::<BodyModel, RequestError>(e),
        },
        // Round trip: a JSON payload parses back to the value the input
        // parsed to, and is itself in canonical form.
        r matches Ok(BodyPayload::Json(t)) ==> json_ok(t@) && json_canon(t@) == json_canon(input@)
            && json_canon(t@) == t@,
{
    match ct {
        ContentType::Json => {
            if input.unicode_len() == 0 {
                Ok(BodyPayload::NoBody)
            } else {
                match json_encode(input) {
                    Some(t) => Ok(BodyPayload::Json(t)),
                    None => Err(RequestError::InvalidJson),
                }
            }
        },
        ContentType::Form => {
            if input.unicode_len() == 0 {
                Err(RequestError::EmptyBody)
            } else {
                match parse_param(input) {
                    Ok(ps) => Ok(BodyPayload::Form(ps)),
                    Err(e) => Err(e),
                }
            }
        },
        ContentType::Raw => {
            if input.unicode_len() == 0 {
                Err(RequestError::EmptyBody)
            } else {
                Ok(BodyPayload::Raw(input.to_owned()))
            }
        },
        ContentType::Multipart => Err(RequestError::EmptyBody),
    }
}

} // verus!
