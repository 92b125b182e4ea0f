//! Error codes and structured denials.

use crate::text;
use vstd::prelude::*;

verus! {

/// The closed set of error codes that reach a caller.
#[derive(Debug, Clone, Copy, PartialEq, Eq, Hash, Structural)]
#[non_exhaustive]
pub enum ErrorCode {
    /// DOI or arXiv id failed validation.
    InvalidRef,
    /// Tier 1 sources reported no open-access URL.
    NoOaAvailable,
    /// Internal rate cap or an upstream 429.
    RateLimited,
    /// Transport, DNS or TLS failure.
    NetworkError,
    /// Filesystem write failed.
    StoreError,
    /// Provenance log write failed; the fetch was aborted.
    LogError,
    /// Source not granted by the runtime capability profile.
    CapabilityDenied,
    /// Per-request timeout exceeded.
    FetchTimeout,
    /// A store entry's schema version is ahead of this build.
    SchemaTooNew,
    /// The lock could not be had in time.
    LockTimeout,
    /// A bug.
    InternalError,
    /// Specified, but not wired yet.
    NotImplemented,
}

/// The stable token of a code.
pub open spec fn code_token(c: ErrorCode) -> Seq<char> {
    match c {
        ErrorCode::InvalidRef => "INVALID_REF"@,
        ErrorCode::NoOaAvailable => "NO_OA_AVAILABLE"@,
        ErrorCode::RateLimited => "RATE_LIMITED"@,
        ErrorCode::NetworkError => "NETWORK_ERROR"@,
        ErrorCode::StoreError => "STORE_ERROR"@,
        ErrorCode::LogError => "LOG_ERROR"@,
        ErrorCode::CapabilityDenied => "CAPABILITY_DENIED"@,
        ErrorCode::FetchTimeout => "FETCH_TIMEOUT"@,
        ErrorCode::SchemaTooNew => "SCHEMA_TOO_NEW"@,
        ErrorCode::LockTimeout => "LOCK_TIMEOUT"@,
        ErrorCode::InternalError => "INTERNAL_ERROR"@,
        ErrorCode::NotImplemented => "NOT_IMPLEMENTED"@,
    }
}

impl ErrorCode {
    /// The stable token of this code.
    pub fn as_wire(&self) -> (r: &'static str)
        ensures
            r@ == code_token(*self),
    {
        match self {
            ErrorCode::InvalidRef => "INVALID_REF",
            ErrorCode::NoOaAvailable => "NO_OA_AVAILABLE",
            ErrorCode::RateLimited => "RATE_LIMITED",
            ErrorCode::NetworkError => "NETWORK_ERROR",
            ErrorCode::StoreError => "STORE_ERROR",
            ErrorCode::LogError => "LOG_ERROR",
            ErrorCode::CapabilityDenied => "CAPABILITY_DENIED",
            ErrorCode::FetchTimeout => "FETCH_TIMEOUT",
            ErrorCode::SchemaTooNew => "SCHEMA_TOO_NEW",
            ErrorCode::LockTimeout => "LOCK_TIMEOUT",
            ErrorCode::InternalError => "INTERNAL_ERROR",
            ErrorCode::NotImplemented => "NOT_IMPLEMENTED",
        }
    }
}

/// Closed set of reasons that a denial carries.
#[derive(Debug, Clone, Copy, PartialEq, Eq, Hash, Structural)]
pub enum DenialReason {
    /// Redirect target host did not match the source's allowlist.
    RedirectNotInAllowlist,
    /// Redirect target had a scheme other than HTTPS.
    InsecureScheme,
    /// Host is on a blocklist (reserved).
    HostInBlockList,
    /// Body exceeded the size cap.
    SizeCapExceeded,
    /// Store entry's schema version is ahead of this build (reserved).
    SchemaDrift,
    /// Source not in the runtime capability profile.
    CapabilityNotGranted,
    /// Rate limiter rejected the call inside the current window (reserved).
    RateLimitWindow,
    /// A private or link-local address was refused (reserved).
    SsrfPrivateAddress,
    /// Content type or magic bytes did not match.
    ContentTypeMismatch,
}

/// Machine-readable companion of an error message for recoverable denials.
/// Every field but `reason` is optional; producers fill what the reason needs.
#[derive(Debug, Clone, PartialEq, Eq)]
pub struct DenialContext {
    /// Why the request was denied.
    pub reason: DenialReason,
    /// Resolver source key, when one is in scope.
    pub source: Option<String>,
    /// The value that was attempted (host, hex magic bytes, scheme prefix).
    pub attempted: Option<String>,
    /// Acceptable values; `Some` of an empty list differs from `None`.
    pub expected: Option<Vec<String>>,
    /// Redirect-chain hop position, from 0.
    pub hop_index: Option<u8>,
    /// Size or rate cap.
    pub cap: Option<u64>,
    /// Observed value.
    pub actual: Option<u64>,
}

/// What a denial holds.
pub struct DenialModel {
    pub reason: DenialReason,
    pub source: Option<Seq<char>>,
    pub attempted: Option<Seq<char>>,
    pub expected: Option<Seq<Seq<char>>>,
    pub hop_index: Option<u8>,
    pub cap: Option<u64>,
    pub actual: Option<u64>,
}

impl DenialModel {
    /// A denial with nothing but its reason.
    pub open spec fn of(reason: DenialReason) -> DenialModel {
        DenialModel {
            reason,
            source: None,
            attempted: None,
            expected: None,
            hop_index: None,
            cap: None,
            actual: None,
        }
    }
}

impl View for DenialContext {
    type V = DenialModel;

    open spec fn view(&self) -> DenialModel {
        DenialModel {
            reason: self.reason,
            source: text::opt_view(self.source),
            attempted: text::opt_view(self.attempted),
            expected: match self.expected {
                Some(v) => Some(text::views(v@)),
                None => None,
            },
            hop_index: self.hop_index,
            cap: self.cap,
            actual: self.actual,
        }
    }
}

impl DenialContext {
    /// A denial with nothing but its reason.
    pub fn of(reason: DenialReason) -> (r: DenialContext)
        ensures
            r@ == DenialModel::of(reason),
            r.reason == reason,
    {
        DenialContext {
            reason,
            source: None,
            attempted: None,
            expected: None,
            hop_index: None,
            cap: None,
            actual: None,
        }
    }
}

/// No two error codes share a token.
pub proof fn law_codes_are_told_apart(a: ErrorCode, b: ErrorCode)
    ensures
        code_token(a) == code_token(b) ==> a == b,
{
    reveal_strlit("INVALID_REF");
    reveal_strlit("NO_OA_AVAILABLE");
    reveal_strlit("RATE_LIMITED");
    reveal_strlit("NETWORK_ERROR");
    reveal_strlit("STORE_ERROR");
    reveal_strlit("LOG_ERROR");
    reveal_strlit("CAPABILITY_DENIED");
    reveal_strlit("FETCH_TIMEOUT");
    reveal_strlit("SCHEMA_TOO_NEW");
    reveal_strlit("LOCK_TIMEOUT");
    reveal_strlit("INTERNAL_ERROR");
    reveal_strlit("NOT_IMPLEMENTED");
    let x = code_token(a);
    let y = code_token(b);
    if x == y {
        assert(x.len() == y.len() && x[0] == y[0] && x[2] == y[2]);
    }
}

} // verus!
