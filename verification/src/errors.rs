//! The closed error taxonomy of the engine: malformed input, missing
//! preconditions, attachment problems, transport failures and unsupported
//! methods. Every failure is carried as a variant, and only the outermost
//! boundary renders it to a display string.
use vstd::prelude::*;
use vstd::string::StringExecFns;

verus! {

/// The spec-level form of a classified error, over character sequences.
pub enum ErrModel {
    UnsupportedMethod(Seq<char>),
    BadHeaderLine,
    BadQueryPair,
    MissingContentType,
    InvalidJson,
    EmptyBody,
    MalformedMultipartSpec,
    FileNotFound(Seq<char>),
    NotAFile(Seq<char>),
    EmptyFile(Seq<char>),
    UnreadableFile(Seq<char>),
    NetworkUnreachable,
    TimedOut,
    OtherFailure,
}

/// A classified request failure. Variants that point at a cause outside the
/// call (a method name, an attachment path) carry it.
#[derive(Debug, Clone, PartialEq, Eq)]
pub enum RequestError {
    /// The method string is none of GET, DELETE, POST, PUT, PATCH.
    UnsupportedMethod(String),
    /// A non-empty header line has no colon or an empty name.
    BadHeaderLine,
    /// A query or form pair has no equals sign.
    BadQueryPair,
    /// A body-bearing method was called without a Content-Type header.
    MissingContentType,
    /// The body did not parse as JSON.
    InvalidJson,
    /// The content type requires a body and none was given.
    EmptyBody,
    /// The multipart input is not one `field=path` with both parts non-empty.
    MalformedMultipartSpec,
    /// The attachment path does not exist.
    FileNotFound(String),
    /// The attachment path is not a regular file.
    NotAFile(String),
    /// The attachment file holds zero bytes.
    EmptyFile(String),
    /// The attachment file could not be read.
    UnreadableFile(String),
    /// The transport could not establish a connection.
    NetworkUnreachable,
    /// The transport gave up after the fixed timeout.
    TimedOut,
    /// Any other transport-level failure.
    OtherFailure,
}

impl RequestError {
    /// The spec-level form of this error.
    pub open spec fn model(self) -> ErrModel {
        match self {
            RequestError::UnsupportedMethod(m) => ErrModel::UnsupportedMethod(m@),
            RequestError::BadHeaderLine => ErrModel::BadHeaderLine,
            RequestError::BadQueryPair => ErrModel::BadQueryPair,
            RequestError::MissingContentType => ErrModel::MissingContentType,
            RequestError::InvalidJson => ErrModel::InvalidJson,
            RequestError::EmptyBody => ErrModel::EmptyBody,
            RequestError::MalformedMultipartSpec => ErrModel::MalformedMultipartSpec,
            RequestError::FileNotFound(p) => ErrModel::FileNotFound(p@),
            RequestError::NotAFile(p) => ErrModel::NotAFile(p@),
            RequestError::EmptyFile(p) => ErrModel::EmptyFile(p@),
            RequestError::UnreadableFile(p) => ErrModel::UnreadableFile(p@),
            RequestError::NetworkUnreachable => ErrModel::NetworkUnreachable,
            RequestError::TimedOut => ErrModel::TimedOut,
            RequestError::OtherFailure => ErrModel::OtherFailure,
        }
    }

    /// The user-readable message for this error.
    pub open spec fn message_of(e: ErrModel) -> Seq<char> {
        match e {
            ErrModel::UnsupportedMethod(m) => "unsupported method "@ + m,
            ErrModel::BadHeaderLine => "malformed header line"@,
            ErrModel::BadQueryPair => "malformed key=value pair"@,
            ErrModel::MissingContentType => "missing Content-Type header"@,
            ErrModel::InvalidJson => "invalid JSON body"@,
            ErrModel::EmptyBody => "empty request body"@,
            ErrModel::MalformedMultipartSpec => (
            "malformed multipart input, expected field=path"@),
            ErrModel::FileNotFound(p) => "file not found: "@ + p,
            ErrModel::NotAFile(p) => "not a regular file: "@ + p,
            ErrModel::EmptyFile(p) => "empty file: "@ + p,
            ErrModel::UnreadableFile(p) => "could not read file: "@ + p,
            ErrModel::NetworkUnreachable => "network unreachable"@,
            ErrModel::TimedOut => "request timed out"@,
            ErrModel::OtherFailure => "other failure"@,
        }
    }

    /// Renders the error as a user-readable message.
    pub fn message(&self) -> (r: String)
        ensures
            r@ == RequestError::message_of(self.model()),
    {
        match self {
            RequestError::UnsupportedMethod(m) => {
                let mut s = String::from_str("unsupported method ");
                s.append(m.as_str());
                s
            },
            RequestError::BadHeaderLine => String::from_str("malformed header line"),
            RequestError::BadQueryPair => String::from_str("malformed key=value pair"),
            RequestError::MissingContentType => String::from_str("missing Content-Type header"),
            RequestError::InvalidJson => String::from_str("invalid JSON body"),
            RequestError::EmptyBody => String::from_str("empty request body"),
            RequestError::MalformedMultipartSpec => String::from_str(
                "malformed multipart input, expected field=path",
            ),
            RequestError::FileNotFound(p) => {
                let mut s = String::from_str("file not found: ");
                s.append(p.as_str());
                s
            },
            RequestError::NotAFile(p) => {
                let mut s = String::from_str("not a regular file: ");
                s.append(p.as_str());
                s
            },
            RequestError::EmptyFile(p) => {
                let mut s = String::from_str("empty file: ");
                s.append(p.as_str());
                s
            },
            RequestError::UnreadableFile(p) => {
                let mut s = String::from_str("could not read file: ");
                s.append(p.as_str());
                s
            },
            RequestError::NetworkUnreachable => String::from_str("network unreachable"),
            RequestError::TimedOut => String::from_str("request timed out"),
            RequestError::OtherFailure => String::from_str("other failure"),
        }
    }
}

} // verus!
