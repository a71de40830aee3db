use vstd::prelude::*;

verus! {

/// How a call to the external SMS-verification provider failed.
///
/// The provider is reached from unverified glue code; the glue reports the
/// failure back to the library as one of these plain values so that the
/// decision logic over them can be verified.
#[derive(Clone, Copy, Debug, PartialEq, Eq, Structural)]
pub enum ProviderFailure {
    /// The request never completed properly: transport, I/O or a response
    /// that could not be parsed.
    Transport,
    /// The provider rejected the credential used for the check; it reports
    /// a wrong verification code this way.
    UnauthorizedKey,
    /// Any other provider-side error response.
    Other,
}

/// The library's error taxonomy: one variant per failure domain.
#[derive(Clone, Copy, Debug, PartialEq, Eq, Structural)]
pub enum Error {
    /// No session matches the presented token, or the token is missing.
    SessionNotFound,
    /// The request was rejected before any work was done: bad phone shape,
    /// empty search query, missing verification code.
    ValidationError,
    /// The backing store could not complete an operation: a violated
    /// constraint (such as a dangling reference) or exhausted resources.
    BackingStoreError,
    /// The external SMS-verification provider failed.
    ExternalProviderError(ProviderFailure),
    /// A task dispatched to the blocking worker pool was dropped.
    BlockingTaskCanceled,
}

/// A `Result` whose error type is the library's own.
pub type AppResult<T> = core::result::Result<T, Error>;

} // verus!
