//! Why a fetch can fail.

use crate::errors::DenialContext;
use crate::errors::DenialModel;
use crate::errors::DenialReason;
use crate::http::error;
use crate::http::error::HttpError;
use crate::refs::ArxivId;
use vstd::prelude::*;

verus! {

/// Errors of a fetch.
#[derive(Debug, PartialEq, Eq)]
#[non_exhaustive]
pub enum FetchError {
    /// Transport failure or a refusal of the transport rules.
    Http(HttpError),
    /// Nothing matched.
    NotFound {
        /// What was looked for, or the trace of where it was looked for.
        hint: String,
    },
    /// The source is not granted.
    NotEligible {
        /// Its key.
        source_key: String,
    },
    /// A source answered in a shape that is not understood.
    SourceSchema {
        /// What is wrong.
        hint: String,
    },
    /// A name matched several entities, none of them clearly.
    Ambiguous {
        /// The candidates.
        hint: String,
    },
    /// The submission holds no text source.
    TextUnavailable {
        /// The submission.
        arxiv_id: ArxivId,
    },
    /// The submission holds no such files.
    SourceUnavailable {
        /// The submission.
        arxiv_id: ArxivId,
        /// What was asked for.
        kind: &'static str,
    },
    /// More references than a batch may hold.
    TooManyRefs {
        /// How many were given.
        got: usize,
        /// How many are accepted.
        max: usize,
    },
    /// The provenance log could not be written; what was under way was given
    /// up.
    Log {
        /// What is wrong.
        message: String,
    },
}

/// The denial that an error stands for, if it is one: a refusal of the
/// transport rules, or a source that is not granted.
pub open spec fn fetch_denial(e: FetchError) -> Option<DenialModel> {
    match e {
        FetchError::Http(h) => error::http_denial(h@),
        FetchError::NotEligible { source_key } => Some(
            DenialModel {
                source: Some(source_key@),
                ..DenialModel::of(DenialReason::CapabilityNotGranted)
            },
        ),
        _ => None,
    }
}

impl FetchError {
    /// The structured denial behind this error.
    pub fn denial_context(&self) -> (r: Option<DenialContext>)
        ensures
            match fetch_denial(*self) {
                Some(m) => r is Some && r->Some_0@ == m,
                None => r is None,
            },
    {
        match self {
            FetchError::Http(h) => h.denial_context(),
            FetchError::NotEligible { source_key } => {
                let mut d = DenialContext::of(DenialReason::CapabilityNotGranted);
                d.source = Some(source_key.clone());
                Some(d)
            },
            _ => None,
        }
    }
}

/// A refused request is a refusal of its own kind; a source that may not be used
/// is one for want of the capability, and names the source; nothing else is one.
pub proof fn law_errors_tell_their_refusal(e: FetchError)
    ensures
        e matches FetchError::Http(h) ==> fetch_denial(e) == error::http_denial(h@),
        e matches FetchError::NotEligible { source_key } ==> fetch_denial(e) == Some(
            DenialModel {
                reason: DenialReason::CapabilityNotGranted,
                source: Some(source_key@),
                attempted: None,
                expected: None,
                hop_index: None,
                cap: None,
                actual: None,
            },
        ),
        !(e is Http || e is NotEligible) ==> fetch_denial(e) is None,
{
}

} // verus!
