//! A user-driven HTTP request engine: given a method name, a target URL, a raw
//! header block and a raw body payload, it builds one outbound request (or a
//! classified error), and turns the transport outcome back into the response
//! text or a classified error.
//!
//! The engine itself performs no I/O: a thin shell converts the built request
//! into an actual transport call and hands the outcome back for normalizing.
use vstd::prelude::*;

pub mod body;
pub mod dispatch;
pub mod errors;
pub mod headers;
pub mod multipart;
pub mod outcome;
pub mod query;
pub mod storage;
pub mod text;

pub use errors::ErrModel;
pub use errors::RequestError;
pub use text::fix_sep;

verus! {

/// The fixed per-request timeout, in seconds.
pub const TIMEOUT_SECS: u64 = 30;

} // verus!
