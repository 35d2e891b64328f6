//! The error of the price lookup.

use vstd::prelude::*;

verus! {

/// A transport failure reported by `reqwest`; the library only carries it.
#[verifier::external_type_specification]
#[verifier::external_body]
pub struct ExReqwestError(reqwest::Error);

/// Why a price lookup failed.
#[derive(Debug)]
pub enum UniswapDexError {
    /// The HTTP client failed, or a reply body could not be read.
    Reqwest(reqwest::Error),
    /// A node answered with data that the lookup cannot use.
    ApiError(String),
    /// A required environment variable is missing.
    EnvVar(String),
}

/// True when `e` is an `ApiError` whose text is `msg`.
pub open spec fn is_api_error(e: UniswapDexError, msg: Seq<char>) -> bool {
    e matches UniswapDexError::ApiError(m) && m@ == msg
}

} // verus!
