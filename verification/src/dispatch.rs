//! The request dispatcher: routes by method, builds the outbound request —
//! URL, headers, query, body, timeout — and, once the transport has run,
//! normalizes the outcome.
//!
//! Read-style methods (GET, DELETE) carry the raw input as query parameters;
//! write-style methods (POST, PUT, PATCH) require a `Content-Type` header and
//! encode the input as the body. A multipart body cannot be finished without
//! the attachment's bytes, so building it pauses as a pending upload that the
//! caller completes with a filesystem probe.
use vstd::prelude::*;
use vstd::string::StrSliceExecFns;

use crate::body::classify_content_type;
use crate::body::ct_class;
use crate::body::encode_body;
use crate::body::encode_model;
use crate::body::json_canon;
use crate::body::json_ok;
use crate::body::BodyModel;
use crate::body::BodyPayload;
use crate::body::ContentType;
use crate::errors::ErrModel;
use crate::errors::RequestError;
use crate::headers::header_map_model;
use crate::headers::lookup_ci_spec;
use crate::headers::parse_header;
use crate::headers::remove_ci_spec;
use crate::headers::Entries;
use crate::headers::HeaderMap;
use crate::multipart::load_model;
use crate::multipart::load_attachment;
use crate::multipart::multipart_model;
use crate::multipart::parse_multipart;
use crate::multipart::FileProbe;
use crate::multipart::MultipartSpec;
use crate::outcome::normalize_model;
use crate::outcome::TransportOutcome;
use crate::query::pair_views;
use crate::query::parse_param;
use crate::query::query_model;
use crate::query::Pairs;
use crate::text::chars_eq;
use crate::text::chars_of;
use crate::TIMEOUT_SECS;

verus! {

/// The five supported HTTP methods.
#[derive(Clone, Copy, Debug, PartialEq, Eq, Structural)]
pub enum Method {
    Get,
    Delete,
    Post,
    Put,
    Patch,
}

/// The method denoted by a method string, spelled exactly; anything else is
/// unsupported.
pub open spec fn method_model(s: Seq<char>) -> Option<Method> {
    if s == "GET"@ {
        Some(Method::Get)
    } else if s == "DELETE"@ {
        Some(Method::Delete)
    } else if s == "POST"@ {
        Some(Method::Post)
    } else if s == "PUT"@ {
        Some(Method::Put)
    } else if s == "PATCH"@ {
        Some(Method::Patch)
    } else {
        None
    }
}

/// Read-style methods conventionally carry no body; their input becomes
/// query parameters instead.
pub open spec fn is_read(m: Method) -> bool {
    m == Method::Get || m == Method::Delete
}

/// Parses a method string, failing with an error that names the method.
pub fn parse_method(method: &str) -> (r: Result<Method, RequestError>)
    ensures
        match r {
            Ok(m) => method_model(method@) == Some(m),
            Err(e) => method_model(method@) is None && (e matches RequestError::UnsupportedMethod(n)
                && n@ == method@),
        },
{
    let cs = chars_of(method);
    if chars_eq(&cs, &chars_of("GET")) {
        Ok(Method::Get)
    } else if chars_eq(&cs, &chars_of("DELETE")) {
        Ok(Method::Delete)
    } else if chars_eq(&cs, &chars_of("POST")) {
        Ok(Method::Post)
    } else if chars_eq(&cs, &chars_of("PUT")) {
        Ok(Method::Put)
    } else if chars_eq(&cs, &chars_of("PATCH")) {
        Ok(Method::Patch)
    } else {
        Err(RequestError::UnsupportedMethod(method.to_owned()))
    }
}

/// The fully-specified, immutable description of one request to be issued.
#[derive(Debug)]
pub struct RequestIntent {
    /// The method string, e.g. `GET`.
    pub method: String,
    /// The target URL, handed to the transport untouched.
    pub url: String,
    /// The raw header block: newline-separated `Name: Value` pairs.
    pub header: String,
    /// The raw body, query, or multipart-spec string.
    pub input: String,
}

/// The spec-level form of a request intent.
pub struct IntentModel {
    pub method: Seq<char>,
    pub url: Seq<char>,
    pub header: Seq<char>,
    pub input: Seq<char>,
}

impl View for RequestIntent {
    type V = IntentModel;

    open spec fn view(&self) -> IntentModel {
        IntentModel { method: self.method@, url: self.url@, header: self.header@, input: self.input@ }
    }
}

/// One outbound request, fully built: everything the transport needs.
#[derive(Debug)]
pub struct OutboundRequest {
    pub method: Method,
    pub url: String,
    pub headers: HeaderMap,
    pub query: Vec<(String, String)>,
    pub body: BodyPayload,
    pub timeout_secs: u64,
}

/// The spec-level form of an outbound request.
pub struct RequestModel {
    pub method: Method,
    pub url: Seq<char>,
    pub headers: Entries,
    pub query: Pairs,
    pub body: BodyModel,
    pub timeout_secs: int,
}

impl View for OutboundRequest {
    type V = RequestModel;

    open spec fn view(&self) -> RequestModel {
        RequestModel {
            method: self.method,
            url: self.url@,
            headers: self.headers@,
            query: pair_views(self.query@),
            body: self.body.model(),
            timeout_secs: self.timeout_secs as int,
        }
    }
}

/// A multipart request waiting for its attachment: everything but the file's
/// bytes. The caller-supplied `Content-Type` header is already removed, since
/// the transport must compute its own boundary-bearing one.
#[derive(Debug)]
pub struct PendingUpload {
    pub method: Method,
    pub url: String,
    pub headers: HeaderMap,
    pub field: String,
    pub path: String,
    pub timeout_secs: u64,
}

/// The spec-level form of a pending upload.
pub struct UploadModel {
    pub method: Method,
    pub url: Seq<char>,
    pub headers: Entries,
    pub field: Seq<char>,
    pub path: Seq<char>,
    pub timeout_secs: int,
}

impl View for PendingUpload {
    type V = UploadModel;

    open spec fn view(&self) -> UploadModel {
        UploadModel {
            method: self.method,
            url: self.url@,
            headers: self.headers@,
            field: self.field@,
            path: self.path@,
            timeout_secs: self.timeout_secs as int,
        }
    }
}

/// What building a request comes to: a request ready to send, or a multipart
/// request waiting for its attachment.
#[derive(Debug)]
pub enum Plan {
    Ready(OutboundRequest),
    Upload(PendingUpload),
}

/// The spec-level form of a plan.
pub enum PlanModel {
    Ready(RequestModel),
    Upload(UploadModel),
}

impl Plan {
    /// The spec-level form of this plan.
    pub open spec fn model(self) -> PlanModel {
        match self {
            Plan::Ready(r) => PlanModel::Ready(r@),
            Plan::Upload(u) => PlanModel::Upload(u@),
        }
    }
}

/// The plan denoted by an intent: method routing, header parsing, query
/// encoding for read-style methods, content-type-driven body encoding for
/// write-style ones — or the earliest classified error.
pub open spec fn plan_model(i: IntentModel) -> Result<PlanModel, ErrModel> {
    match method_model(i.method) {
        None => Err(ErrModel::UnsupportedMethod(i.method)),
        Some(m) => match header_map_model(i.header) {
            None => Err(ErrModel::BadHeaderLine),
            Some(hm) => {
                if is_read(m) {
                    if i.input.len() == 0 {
                        Ok(
                            PlanModel::Ready(
                                RequestModel {
                                    method: m,
                                    url: i.url,
                                    headers: hm,
                                    query: Seq::empty(),
                                    body: BodyModel::NoBody,
                                    timeout_secs: TIMEOUT_SECS as int,
                                },
                            ),
                        )
                    } else {
                        match query_model(i.input) {
                            None => Err(ErrModel::BadQueryPair),
                            Some(q) => Ok(
                                PlanModel::Ready(
                                    RequestModel {
                                        method: m,
                                        url: i.url,
                                        headers: hm,
                                        query: q,
                                        body: BodyModel::NoBody,
                                        timeout_secs: TIMEOUT_SECS as int,
                                    },
                                ),
                            ),
                        }
                    }
                } else {
                    match lookup_ci_spec(hm, "Content-Type"@) {
                        None => Err(ErrModel::MissingContentType),
                        Some(ctv) => {
                            if ct_class(ctv) == ContentType::Multipart {
                                if i.input.len() == 0 {
                                    Err(ErrModel::EmptyBody)
                                } else {
                                    match multipart_model(i.input) {
                                        None => Err(ErrModel::MalformedMultipartSpec),
                                        Some(fp) => Ok(
                                            PlanModel::Upload(
                                                UploadModel {
                                                    method: m,
                                                    url: i.url,
                                                    headers: remove_ci_spec(hm, "Content-Type"@),
                                                    field: fp.0,
                                                    path: fp.1,
                                                    timeout_secs: TIMEOUT_SECS as int,
                                                },
                                            ),
                                        ),
                                    }
                                }
                            } else {
                                match encode_model(ct_class(ctv), i.input) {
                                    Err(e) => Err(e.model()),
                                    Ok(b) => Ok(
                                        PlanModel::Ready(
                                            RequestModel {
                                                method: m,
                                                url: i.url,
                                                headers: hm,
                                                query: Seq::empty(),
                                                body: b,
                                                timeout_secs: TIMEOUT_SECS as int,
                                            },
                                        ),
                                    ),
                                }
                            }
                        },
                    }
                }
            },
        },
    }
}

/// The spec-level form of a plan-or-error result.
pub open spec fn plan_res_model(r: Result<Plan, RequestError>) -> Result<PlanModel, ErrModel> {
    match r {
        Ok(p) => Ok(p.model()),
        Err(e) => Err(e.model()),
    }
}

/// Builds the outbound request (or pending upload) an intent calls for, or
/// returns the earliest classified error; no transport is touched.
pub fn plan_request(intent: &RequestIntent) -> (r: Result<Plan, RequestError>)
    ensures
        plan_res_model(r) == plan_model(intent@),
        // Round trip: a built JSON payload is canonical and parses back to
        // the value the raw body parsed to.
        r matches Ok(Plan::Ready(req)) ==> (req@.body matches BodyModel::Json(t) ==> json_ok(t)
            && json_canon(t) == t && json_canon(t) == json_canon(intent@.input)),
{
    let m = match parse_method(intent.method.as_str()) {
        Ok(m) => m,
        Err(e) => {
            return Err(e);
        },
    };
    let hm = match parse_header(intent.header.as_str()) {
        Ok(hm) => hm,
        Err(e) => {
            return Err(e);
        },
    };
    if m == Method::Get || m == Method::Delete {
        let query: Vec<(String, String)> = if intent.input.as_str().unicode_len() == 0 {
            Vec::new()
        } else {
            match parse_param(intent.input.as_str()) {
                Ok(q) => q,
                Err(e) => {
                    return Err(e);
                },
            }
        };
        proof {
            assert(pair_views(Seq::<(String, String)>::empty()) =~= Seq::<
                (Seq<char>, Seq<char>),
            >::empty());
        }
        Ok(
            Plan::Ready(
                OutboundRequest {
                    method: m,
                    url: intent.url.clone(),
                    headers: hm,
                    query,
                    body: BodyPayload::NoBody,
                    timeout_secs: TIMEOUT_SECS,
                },
            ),
        )
    } else {
        let ctv = match hm.get_ci("Content-Type") {
            Some(v) => v,
            None => {
                return Err(RequestError::MissingContentType);
            },
        };
        let ct = classify_content_type(ctv.as_str());
        if ct == ContentType::Multipart {
            if intent.input.as_str().unicode_len() == 0 {
                return Err(RequestError::EmptyBody);
            }
            let mspec = match parse_multipart(intent.input.as_str()) {
                Ok(s) => s,
                Err(e) => {
                    return Err(e);
                },
            };
            Ok(
                Plan::Upload(
                    PendingUpload {
                        method: m,
                        url: intent.url.clone(),
                        headers: hm.remove_ci("Content-Type"),
                        field: mspec.field,
                        path: mspec.path,
                        timeout_secs: TIMEOUT_SECS,
                    },
                ),
            )
        } else {
            let body = match encode_body(ct, intent.input.as_str()) {
                Ok(b) => b,
                Err(e) => {
                    return Err(e);
                },
            };
            proof {
                assert(pair_views(Seq::<(String, String)>::empty()) =~= Seq::<
                    (Seq<char>, Seq<char>),
                >::empty());
            }
            Ok(
                Plan::Ready(
                    OutboundRequest {
                        method: m,
                        url: intent.url.clone(),
                        headers: hm,
                        query: Vec::new(),
                        body,
                        timeout_secs: TIMEOUT_SECS,
                    },
                ),
            )
        }
    }
}

/// The finished request a pending upload comes to under given filesystem
/// findings, or the classified attachment error.
pub open spec fn upload_model(
    u: UploadModel,
    exists: bool,
    is_file: bool,
    content: Option<Seq<u8>>,
) -> Result<RequestModel, ErrModel> {
    match load_model(u.field, u.path, exists, is_file, content) {
        Err(e) => Err(e),
        Ok(p) => Ok(
            RequestModel {
                method: u.method,
                url: u.url,
                headers: u.headers,
                query: Seq::empty(),
                body: BodyModel::Multipart { field: p.0, file_name: p.1, content: p.2 },
                timeout_secs: u.timeout_secs,
            },
        ),
    }
}

/// Completes a pending upload with what the filesystem reported about its
/// path, yielding the finished multipart request or the classified error.
pub fn attach_file(up: PendingUpload, probe: FileProbe) -> (r: Result<
    OutboundRequest,
    RequestError,
>)
    ensures
        match r {
            Ok(req) => upload_model(up@, probe.exists, probe.is_file, probe.content_model())
                == Ok::<RequestModel, ErrModel>(req@),
            Err(e) => upload_model(up@, probe.exists, probe.is_file, probe.content_model())
                == Err::<RequestModel, ErrModel>(e.model()),
        },
{
    let mspec = MultipartSpec { field: up.field, path: up.path };
    let part = match load_attachment(mspec, probe) {
        Ok(p) => p,
        Err(e) => {
            return Err(e);
        },
    };
    proof {
        assert(pair_views(Seq::<(String, String)>::empty()) =~= Seq::<
            (Seq<char>, Seq<char>),
        >::empty());
    }
    Ok(
        OutboundRequest {
            method: up.method,
            url: up.url,
            headers: up.headers,
            query: Vec::new(),
            body: BodyPayload::Multipart(part),
            timeout_secs: up.timeout_secs,
        },
    )
}

/// The classified outcome of one whole dispatch: the earliest build error, or
/// the attachment error, or the normalized transport outcome.
pub open spec fn dispatch_model(
    i: IntentModel,
    exists: bool,
    is_file: bool,
    content: Option<Seq<u8>>,
    o: TransportOutcome,
) -> Result<Seq<char>, ErrModel> {
    match plan_model(i) {
        Err(e) => Err(e),
        Ok(PlanModel::Ready(_)) => lift_outcome(normalize_model(o)),
        Ok(PlanModel::Upload(u)) => match upload_model(u, exists, is_file, content) {
            Err(e) => Err(e),
            Ok(_) => lift_outcome(normalize_model(o)),
        },
    }
}

/// The normalized transport outcome, with its error in spec-level form.
pub open spec fn lift_outcome(r: Result<Seq<char>, RequestError>) -> Result<Seq<char>, ErrModel> {
    match r {
        Ok(t) => Ok(t),
        Err(e) => Err(e.model()),
    }
}

/// Dispatching is idempotent: two dispatches of identical intents, seeing the
/// same filesystem findings and the same transport outcome, come to the same
/// classified result. The contracts of `plan_request`, `attach_file` and
/// `normalize` each pin their result to the models composed here, so this
/// covers the executable path end to end.
pub proof fn lemma_dispatch_idempotent(
    i1: IntentModel,
    i2: IntentModel,
    exists1: bool,
    exists2: bool,
    is_file1: bool,
    is_file2: bool,
    content1: Option<Seq<u8>>,
    content2: Option<Seq<u8>>,
    o1: TransportOutcome,
    o2: TransportOutcome,
)
    requires
        i1 == i2,
        exists1 == exists2,
        is_file1 == is_file2,
        content1 == content2,
        o1 == o2,
    ensures
        dispatch_model(i1, exists1, is_file1, content1, o1) == dispatch_model(
            i2,
            exists2,
            is_file2,
            content2,
            o2,
        ),
{
}

/// An empty input is allowed exactly for JSON on a write-style method: it
/// builds a body-less request, while every other content type fails with the
/// empty-body error.
pub proof fn lemma_empty_body_policy(i: IntentModel, m: Method, hm: Entries, ctv: Seq<char>)
    requires
        method_model(i.method) == Some(m),
        !is_read(m),
        header_map_model(i.header) == Some(hm),
        lookup_ci_spec(hm, "Content-Type"@) == Some(ctv),
        i.input.len() == 0,
    ensures
        ct_class(ctv) == ContentType::Json ==> (plan_model(i) matches Ok(PlanModel::Ready(r))
            && r.body == BodyModel::NoBody),
        ct_class(ctv) != ContentType::Json ==> plan_model(i) == Err::<PlanModel, ErrModel>(
            ErrModel::EmptyBody,
        ),
{
}

} // verus!

