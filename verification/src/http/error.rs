//! Transport errors and the denials that they stand for.

use crate::digest;
use crate::errors::DenialContext;
use crate::errors::DenialModel;
use crate::errors::DenialReason;
use crate::text;
use vstd::prelude::*;

verus! {

/// Errors of an HTTP fetch.
#[derive(Debug, PartialEq, Eq)]
#[non_exhaustive]
pub enum HttpError {
    /// Transport, DNS or TLS failure.
    Network {
        /// What the transport says.
        message: String,
        /// The refusal that aborted the request, where the transport carries
        /// one: a redirect that was denied surfaces as a transport error.
        cause: Option<Box<HttpError>>,
    },
    /// Redirect target host matched no pattern of the source's allowlist.
    RedirectDenied {
        /// Source key whose allowlist refused.
        source_key: String,
        /// The host, in lower case; empty where the target has none.
        host: String,
        /// The allowlist's patterns at the time.
        expected_hosts: Vec<String>,
    },
    /// Redirect target had a scheme other than `https`.
    InsecureRedirect {
        /// The scheme.
        scheme: String,
    },
    /// Body exceeds the size cap.
    OversizedBody {
        /// Announced or accumulated size.
        actual: u64,
        /// The cap.
        cap: u64,
    },
    /// Body does not start with `%PDF-`.
    NotAPdf {
        /// First five bytes of the body, padded with zeros.
        got: [u8; 5],
    },
    /// Server returned a status other than 2xx.
    HttpStatus {
        /// The status.
        status: u16,
        /// The URL that produced it, without any API key.
        url: String,
    },
    /// No allowlist is registered for the source.
    UnknownSource {
        /// The source key.
        source_key: String,
    },
    /// A header cannot be sent.
    InvalidHeader {
        /// The header's name.
        name: String,
        /// `name` or `value`: which side is at fault.
        reason: String,
    },
}

/// What an error holds.
pub enum HttpErrorModel {
    Network { message: Seq<char>, cause: Option<Box<HttpErrorModel>> },
    RedirectDenied { source_key: Seq<char>, host: Seq<char>, expected_hosts: Seq<Seq<char>> },
    InsecureRedirect { scheme: Seq<char> },
    OversizedBody { actual: u64, cap: u64 },
    NotAPdf { got: Seq<u8> },
    HttpStatus { status: u16, url: Seq<char> },
    UnknownSource { source_key: Seq<char> },
    InvalidHeader { name: Seq<char>, reason: Seq<char> },
}

/// What an error holds.
pub open spec fn error_model(e: HttpError) -> HttpErrorModel
    decreases e,
{
    match e {
        HttpError::Network { message, cause } => HttpErrorModel::Network {
            message: message@,
            cause: match cause {
                Some(inner) => Some(Box::new(error_model(*inner))),
                None => None,
            },
        },
        HttpError::RedirectDenied { source_key, host, expected_hosts } =>
            HttpErrorModel::RedirectDenied {
            source_key: source_key@,
            host: host@,
            expected_hosts: text::views(expected_hosts@),
        },
        HttpError::InsecureRedirect { scheme } => HttpErrorModel::InsecureRedirect {
            scheme: scheme@,
        },
        HttpError::OversizedBody { actual, cap } => HttpErrorModel::OversizedBody { actual, cap },
        HttpError::NotAPdf { got } => HttpErrorModel::NotAPdf { got: got@ },
        HttpError::HttpStatus { status, url } => HttpErrorModel::HttpStatus { status, url: url@ },
        HttpError::UnknownSource { source_key } => HttpErrorModel::UnknownSource {
            source_key: source_key@,
        },
        HttpError::InvalidHeader { name, reason } => HttpErrorModel::InvalidHeader {
            name: name@,
            reason: reason@,
        },
    }
}

impl View for HttpError {
    type V = HttpErrorModel;

    open spec fn view(&self) -> HttpErrorModel {
        error_model(*self)
    }
}

/// The denial that an error stands for, if it is one.
pub open spec fn http_denial(e: HttpErrorModel) -> Option<DenialModel>
    decreases e,
{
    match e {
        HttpErrorModel::Network { cause, .. } => match cause {
            Some(inner) => http_denial(*inner),
            None => None,
        },
        HttpErrorModel::RedirectDenied { source_key, host, expected_hosts } => Some(
            DenialModel {
                source: Some(source_key),
                attempted: Some(host),
                expected: Some(expected_hosts),
                ..DenialModel::of(DenialReason::RedirectNotInAllowlist)
            },
        ),
        HttpErrorModel::InsecureRedirect { scheme } => Some(
            DenialModel {
                attempted: Some(scheme + ":..."@),
                expected: Some(seq!["https"@]),
                ..DenialModel::of(DenialReason::InsecureScheme)
            },
        ),
        HttpErrorModel::OversizedBody { actual, cap } => Some(
            DenialModel {
                cap: Some(cap),
                actual: Some(actual),
                ..DenialModel::of(DenialReason::SizeCapExceeded)
            },
        ),
        HttpErrorModel::NotAPdf { got } => Some(
            DenialModel {
                attempted: Some(digest::hex_text(got)),
                expected: Some(seq!["%PDF-"@]),
                ..DenialModel::of(DenialReason::ContentTypeMismatch)
            },
        ),
        HttpErrorModel::HttpStatus { .. } => None,
        HttpErrorModel::UnknownSource { .. } => None,
        HttpErrorModel::InvalidHeader { .. } => None,
    }
}

/// The one-line text of an error.
pub open spec fn http_message(e: HttpErrorModel) -> Seq<char> {
    match e {
        HttpErrorModel::Network { message, .. } => "network error: "@ + message,
        HttpErrorModel::RedirectDenied { source_key, host, .. } => "redirect target "@ + host
            + " not in allowlist for source "@ + source_key,
        HttpErrorModel::InsecureRedirect { scheme } => "redirect to non-HTTPS scheme: "@ + scheme,
        HttpErrorModel::OversizedBody { actual, cap } => "body too large: "@ + text::decimal(
            actual as nat,
        ) + " bytes (cap = "@ + text::decimal(cap as nat) + ")"@,
        HttpErrorModel::NotAPdf { got } => "PDF magic-byte mismatch: got ["@ + text::join(
            Seq::new(got.len(), |i: int| text::decimal(got[i] as nat)),
            ", "@,
        ) + "]"@,
        HttpErrorModel::HttpStatus { status, url } => "HTTP "@ + text::decimal(status as nat)
            + " from "@ + url,
        HttpErrorModel::UnknownSource { source_key } => "no allowlist registered for source "@
            + source_key,
        HttpErrorModel::InvalidHeader { name, reason } => "invalid HTTP header `"@ + name
            + "`: "@ + reason,
    }
}

impl HttpError {
    /// Renders the error as one line.
    pub fn message(&self) -> (r: String)
        ensures
            r@ == http_message(self@),
    {
        match self {
            HttpError::Network { message, .. } => "network error: ".to_string().concat(
                message.as_str(),
            ),
            HttpError::RedirectDenied { source_key, host, .. } =>
                "redirect target ".to_string().concat(host.as_str()).concat(
                    " not in allowlist for source ",
                ).concat(source_key.as_str()),
            HttpError::InsecureRedirect { scheme } =>
                "redirect to non-HTTPS scheme: ".to_string().concat(scheme.as_str()),
            HttpError::OversizedBody { actual, cap } => "body too large: ".to_string().concat(
                text::decimal_of(*actual).as_str(),
            ).concat(" bytes (cap = ").concat(text::decimal_of(*cap).as_str()).concat(")"),
            HttpError::NotAPdf { got } => {
                let mut parts: Vec<String> = Vec::new();
                let mut i: usize = 0;
                while i < 5
                    invariant
                        i <= 5,
                        parts@.len() == i,
                        forall|j: int|
                            0 <= j < i ==> (#[trigger] parts@[j])@ == text::decimal(
                                got@[j] as nat,
                            ),
                    decreases 5 - i,
                {
                    parts.push(text::decimal_of(got[i] as u64));
                    i += 1;
                }
                assert(text::views(parts@) =~= Seq::new(
                    got@.len(),
                    |j: int| text::decimal(got@[j] as nat),
                ));
                "PDF magic-byte mismatch: got [".to_string().concat(
                    text::join_of(parts.as_slice(), ", ").as_str(),
                ).concat("]")
            },
            HttpError::HttpStatus { status, url } => "HTTP ".to_string().concat(
                text::decimal_of(*status as u64).as_str(),
            ).concat(" from ").concat(url.as_str()),
            HttpError::UnknownSource { source_key } =>
                "no allowlist registered for source ".to_string().concat(source_key.as_str()),
            HttpError::InvalidHeader { name, reason } => "invalid HTTP header `".to_string().concat(
                name.as_str(),
            ).concat("`: ").concat(reason.as_str()),
        }
    }

    /// The structured denial behind this error: `Some` for a denied or insecure
    /// redirect, an oversized body and a body that is no PDF, whether on its own
    /// or as the cause of a transport error; `None` for every other error.
    pub fn denial_context(&self) -> (r: Option<DenialContext>)
        ensures
            match http_denial(self@) {
                Some(m) => r is Some && r->Some_0@ == m,
                None => r is None,
            },
        decreases self,
    {
        match self {
            HttpError::Network { cause, .. } => match cause {
                Some(inner) => inner.denial_context(),
                None => None,
            },
            HttpError::RedirectDenied { source_key, host, expected_hosts } => {
                let mut d = DenialContext::of(DenialReason::RedirectNotInAllowlist);
                d.source = Some(source_key.clone());
                d.attempted = Some(host.clone());
                d.expected = Some(text::copy_strings(expected_hosts));
                Some(d)
            },
            HttpError::InsecureRedirect { scheme } => {
                let mut d = DenialContext::of(DenialReason::InsecureScheme);
                d.attempted = Some(scheme.clone().concat(":..."));
                d.expected = Some(vec!["https".to_string()]);
                assert(text::views(d.expected->Some_0@) =~= seq!["https"@]);
                Some(d)
            },
            HttpError::OversizedBody { actual, cap } => {
                let mut d = DenialContext::of(DenialReason::SizeCapExceeded);
                d.cap = Some(*cap);
                d.actual = Some(*actual);
                Some(d)
            },
            HttpError::NotAPdf { got } => {
                let mut d = DenialContext::of(DenialReason::ContentTypeMismatch);
                d.attempted = Some(digest::hex_of(got.as_slice()));
                d.expected = Some(vec!["%PDF-".to_string()]);
                assert(text::views(d.expected->Some_0@) =~= seq!["%PDF-"@]);
                Some(d)
            },
            HttpError::HttpStatus { .. } => None,
            HttpError::UnknownSource { .. } => None,
            HttpError::InvalidHeader { .. } => None,
        }
    }
}

/// A refusal that the transport wrapped is reported as if it stood alone.
pub proof fn law_wrapped_refusals_surface(message: Seq<char>, inner: Box<HttpErrorModel>)
    ensures
        http_denial(HttpErrorModel::Network { message, cause: Some(inner) }) == http_denial(*inner),
{
}

/// A refusal says what was refused and what would have passed; an answer that
/// failed, an unknown source and a bad header are no refusals.
pub proof fn law_refusals_say_what_was_refused(e: HttpErrorModel)
    ensures
        e matches HttpErrorModel::RedirectDenied { source_key, host, expected_hosts }
            ==> http_denial(e) == Some(
            DenialModel {
                reason: DenialReason::RedirectNotInAllowlist,
                source: Some(source_key),
                attempted: Some(host),
                expected: Some(expected_hosts),
                hop_index: None,
                cap: None,
                actual: None,
            },
        ),
        e matches HttpErrorModel::InsecureRedirect { scheme } ==> http_denial(e) == Some(
            DenialModel {
                reason: DenialReason::InsecureScheme,
                source: None,
                attempted: Some(scheme + ":..."@),
                expected: Some(seq!["https"@]),
                hop_index: None,
                cap: None,
                actual: None,
            },
        ),
        e matches HttpErrorModel::OversizedBody { actual, cap } ==> http_denial(e) == Some(
            DenialModel {
                reason: DenialReason::SizeCapExceeded,
                source: None,
                attempted: None,
                expected: None,
                hop_index: None,
                cap: Some(cap),
                actual: Some(actual),
            },
        ),
        e matches HttpErrorModel::NotAPdf { got } ==> http_denial(e) == Some(
            DenialModel {
                reason: DenialReason::ContentTypeMismatch,
                source: None,
                attempted: Some(digest::hex_text(got)),
                expected: Some(seq!["%PDF-"@]),
                hop_index: None,
                cap: None,
                actual: None,
            },
        ),
        e is HttpStatus || e is UnknownSource || e is InvalidHeader ==> http_denial(e) is None,
        e matches HttpErrorModel::Network { cause, .. } ==> (cause is None ==> http_denial(
            e,
        ) is None),
{
}

/// What a message says can be read out of it.
pub proof fn law_messages_say_what_happened(e: HttpErrorModel)
    ensures
        e matches HttpErrorModel::Network { message, .. } ==> http_message(e) == "network error: "@
            + message,
        e matches HttpErrorModel::HttpStatus { status, url } ==> http_message(e) == "HTTP "@
            + text::decimal(status as nat) + " from "@ + url,
        e matches HttpErrorModel::RedirectDenied { source_key, host, .. } ==> http_message(e)
            == "redirect target "@ + host + " not in allowlist for source "@ + source_key,
        e matches HttpErrorModel::OversizedBody { actual, cap } ==> http_message(e)
            == "body too large: "@ + text::decimal(actual as nat) + " bytes (cap = "@
            + text::decimal(cap as nat) + ")"@,
{
}

} // verus!
