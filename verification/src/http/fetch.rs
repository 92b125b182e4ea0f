//! The decisions of a fetch: redirects, retries and the body.

use crate::http::allowlist;
use crate::http::allowlist::AllowModel;
use crate::http::allowlist::SourceAllowlist;
use crate::http::error::HttpError;
use crate::http::error::HttpErrorModel;
use crate::text;
use crate::urls;
use crate::urls::UrlModel;
use crate::urls::WebUrl;
use vstd::prelude::*;

verus! {

/// Largest body that is accepted, in bytes.
pub const PDF_MAX_BYTES: u64 = 100_000_000;

/// Longest redirect chain.
pub const MAX_REDIRECTS: usize = 10;

/// Retries after the first try.
pub const MAX_FETCH_RETRIES: u32 = 3;

/// First backoff delay, in milliseconds.
pub const RETRY_BASE_DELAY_MS: u64 = 500;

/// Longest delay before a retry, in milliseconds, jitter aside.
pub const RETRY_MAX_DELAY_MS: u64 = 30_000;

/// The same in seconds.
pub const RETRY_MAX_DELAY_SEC: u64 = 30;

// ---------------------------------------------------------------------------
// Redirects
// ---------------------------------------------------------------------------

/// What happens to a redirect.
#[derive(Debug, PartialEq, Eq)]
pub enum RedirectVerdict {
    /// The redirect is followed.
    Follow,
    /// The chain ends here, and the redirect response is the answer.
    Stop,
    /// The request fails.
    Deny(HttpError),
}

/// What happens to a redirect.
pub enum VerdictModel {
    Follow,
    Stop,
    Deny(HttpErrorModel),
}

impl View for RedirectVerdict {
    type V = VerdictModel;

    open spec fn view(&self) -> VerdictModel {
        match *self {
            RedirectVerdict::Follow => VerdictModel::Follow,
            RedirectVerdict::Stop => VerdictModel::Stop,
            RedirectVerdict::Deny(e) => VerdictModel::Deny(e@),
        }
    }
}

/// The refusal of a host that is not on the list. The host is named in lower
/// case; a URL without a host is named by the empty text.
pub open spec fn host_refusal(allow: AllowModel, host: Option<Seq<char>>) -> HttpErrorModel {
    HttpErrorModel::RedirectDenied {
        source_key: allow.source,
        host: match host {
            Some(h) => text::lower(h),
            None => Seq::empty(),
        },
        expected_hosts: allow.hosts,
    }
}

/// The host is there and on the list.
pub open spec fn host_passes(allow: AllowModel, host: Option<Seq<char>>) -> bool {
    host is Some && allowlist::allowed(host->Some_0, allow.hosts)
}

/// How a redirect is judged: scheme, then chain length, then host.
pub open spec fn redirect_verdict(
    allow: AllowModel,
    scheme: Seq<char>,
    host: Option<Seq<char>>,
    hops: nat,
) -> VerdictModel {
    if scheme != "https"@ {
        VerdictModel::Deny(HttpErrorModel::InsecureRedirect { scheme })
    } else if hops >= MAX_REDIRECTS {
        VerdictModel::Stop
    } else if host_passes(allow, host) {
        VerdictModel::Follow
    } else {
        VerdictModel::Deny(host_refusal(allow, host))
    }
}

/// The content of an optional string.
pub open spec fn host_view(host: Option<&String>) -> Option<Seq<char>> {
    match host {
        Some(h) => Some(h@),
        None => None,
    }
}

/// Checks a host against the list; the error is the refusal.
pub fn check_host(allow: &SourceAllowlist, host: Option<&String>) -> (r: Result<(), HttpError>)
    ensures
        r is Ok <==> host_passes(allow@, host_view(host)),
        r matches Err(e) ==> e@ == host_refusal(allow@, host_view(host)),
{
    let name = match host {
        None => String::new(),
        Some(h) => {
            if allow.matches(h.as_str()) {
                return Ok(());
            }
            text::lower_of(h.as_str())
        },
    };
    Err(
        HttpError::RedirectDenied {
            source_key: allow.source.clone(),
            host: name,
            expected_hosts: text::copy_strings(&allow.redirect_hosts),
        },
    )
}

/// Judges one hop of a redirect chain. `hops` counts the URLs visited before.
pub fn judge_redirect(
    allow: &SourceAllowlist,
    scheme: &str,
    host: Option<&String>,
    hops: usize,
) -> (r: RedirectVerdict)
    ensures
        r@ == redirect_verdict(allow@, scheme@, host_view(host), hops as nat),
{
    if !text::same(scheme, "https") {
        return RedirectVerdict::Deny(HttpError::InsecureRedirect { scheme: scheme.to_string() });
    }
    if hops >= MAX_REDIRECTS {
        return RedirectVerdict::Stop;
    }
    match check_host(allow, host) {
        Ok(()) => RedirectVerdict::Follow,
        Err(e) => RedirectVerdict::Deny(e),
    }
}

/// A redirect is followed only to an `https` URL whose host is on the list,
/// and only within the chain limit.
pub proof fn law_only_listed_https_hosts_are_followed(
    allow: AllowModel,
    scheme: Seq<char>,
    host: Option<Seq<char>>,
    hops: nat,
)
    ensures
        redirect_verdict(allow, scheme, host, hops) is Follow <==> scheme == "https"@ && hops
            < MAX_REDIRECTS && host is Some && allowlist::allowed(host->Some_0, allow.hosts),
{
}

/// A URL that is refused before its first request is refused with the very
/// error that a redirect to it would end in.
pub proof fn law_first_request_and_redirect_are_refused_alike(
    allow: AllowModel,
    host: Option<Seq<char>>,
    hops: nat,
)
    requires
        !host_passes(allow, host),
        hops < MAX_REDIRECTS,
    ensures
        redirect_verdict(allow, "https"@, host, hops) == VerdictModel::Deny(
            host_refusal(allow, host),
        ),
{
}

// ---------------------------------------------------------------------------
// Registered sources
// ---------------------------------------------------------------------------

/// The allowlists that a client was built with. Where a key is registered
/// twice the later entry counts.
#[derive(Debug)]
pub struct SourceRegistry {
    pub(crate) entries: Vec<SourceAllowlist>,
}

/// The entry that counts for a source key.
pub open spec fn registered(entries: Seq<AllowModel>, source: Seq<char>) -> Option<AllowModel>
    decreases entries.len(),
{
    if entries.len() == 0 {
        None
    } else if entries.last().source == source {
        Some(entries.last())
    } else {
        registered(entries.drop_last(), source)
    }
}

impl View for SourceRegistry {
    type V = Seq<AllowModel>;

    closed spec fn view(&self) -> Seq<AllowModel> {
        allowlist::models(self.entries@)
    }
}

impl SourceRegistry {
    /// Registers the given allowlists, in order.
    pub fn new(entries: Vec<SourceAllowlist>) -> (r: SourceRegistry)
        ensures
            r@ == allowlist::models(entries@),
    {
        SourceRegistry { entries }
    }

    /// The allowlist of a source.
    pub fn source_allowlist(&self, source: &str) -> (r: Option<&SourceAllowlist>)
        ensures
            match registered(self@, source@) {
                Some(m) => r is Some && r->Some_0@ == m,
                None => r is None,
            },
    {
        let mut i: usize = self.entries.len();
        assert(self@.take(i as int) =~= self@);
        while i > 0
            invariant
                i <= self.entries.len(),
                registered(self@, source@) == registered(self@.take(i as int), source@),
            decreases i,
        {
            let ghost t = self@.take(i as int);
            assert(t.drop_last() =~= self@.take(i - 1));
            assert(t.last() == self.entries@[i - 1]@);
            if text::same(self.entries[i - 1].source.as_str(), source) {
                return Some(&self.entries[i - 1]);
            }
            i -= 1;
        }
        None
    }

    /// The allowlist of a source, or the error that no such source is known.
    pub fn require(&self, source: &str) -> (r: Result<&SourceAllowlist, HttpError>)
        ensures
            match registered(self@, source@) {
                Some(m) => r is Ok && r->Ok_0@ == m,
                None => r is Err && r->Err_0@ == (HttpErrorModel::UnknownSource {
                    source_key: source@,
                }),
            },
    {
        match self.source_allowlist(source) {
            Some(a) => Ok(a),
            None => Err(HttpError::UnknownSource { source_key: source.to_string() }),
        }
    }
}

// ---------------------------------------------------------------------------
// Request headers
// ---------------------------------------------------------------------------

/// `c` can stand in a header name.
pub open spec fn is_header_name_char(c: char) -> bool {
    ||| text::is_digit(c)
    ||| 'A' <= c && c <= 'Z'
    ||| 'a' <= c && c <= 'z'
    ||| "!#$%&'*+-.^_`|~"@.contains(c)
}

/// The text is a header name that can be sent.
pub open spec fn header_name_ok(name: Seq<char>) -> bool {
    0 < name.len() <= 65_535 && forall|i: int|
        0 <= i < name.len() ==> is_header_name_char(#[trigger] name[i])
}

/// The text is a header value that can be sent: it holds no control character
/// but the tab.
pub open spec fn header_value_ok(value: Seq<char>) -> bool {
    forall|i: int|
        0 <= i < value.len() ==> (#[trigger] value[i] >= ' ' && value[i] != '\x7f') || value[i]
            == '\t'
}

/// Asks `reqwest::header::HeaderName::from_bytes` whether it takes the name: it
/// takes 1 to 65535 letters, digits and the marks of a token.
#[verifier::external_body]
fn takes_header_name(name: &str) -> (r: bool)
    ensures
        r == header_name_ok(name@),
{
    reqwest::header::HeaderName::from_bytes(name.as_bytes()).is_ok()
}

/// Asks `reqwest::header::HeaderValue::from_str` whether it takes the value: it
/// takes every text without control characters, the tab aside.
#[verifier::external_body]
fn takes_header_value(value: &str) -> (r: bool)
    ensures
        r == header_value_ok(value@),
{
    reqwest::header::HeaderValue::from_str(value).is_ok()
}

/// The first header that cannot be sent, and what is wrong with it.
pub open spec fn header_defect(headers: Seq<(Seq<char>, Seq<char>)>) -> Option<HttpErrorModel>
    decreases headers.len(),
{
    if headers.len() == 0 {
        None
    } else if !header_name_ok(headers[0].0) {
        Some(HttpErrorModel::InvalidHeader { name: headers[0].0, reason: "name"@ })
    } else if !header_value_ok(headers[0].1) {
        Some(HttpErrorModel::InvalidHeader { name: headers[0].0, reason: "value"@ })
    } else {
        header_defect(headers.drop_first())
    }
}

/// The error for a header whose name or value was refused.
pub fn header_verdict(name: &str, name_ok: bool, value_ok: bool) -> (r: Result<(), HttpError>)
    ensures
        r is Ok <==> name_ok && value_ok,
        r matches Err(e) ==> e@ == (HttpErrorModel::InvalidHeader {
            name: name@,
            reason: if !name_ok {
                "name"@
            } else {
                "value"@
            },
        }),
{
    if !name_ok {
        return Err(
            HttpError::InvalidHeader { name: name.to_string(), reason: "name".to_string() },
        );
    }
    if !value_ok {
        return Err(
            HttpError::InvalidHeader { name: name.to_string(), reason: "value".to_string() },
        );
    }
    Ok(())
}

/// Checks all headers before anything is sent.
pub fn check_headers(headers: &Vec<(String, String)>) -> (r: Result<(), HttpError>)
    ensures
        match header_defect(urls::pair_views(headers@)) {
            Some(m) => r is Err && r->Err_0@ == m,
            None => r is Ok,
        },
{
    let ghost all = urls::pair_views(headers@);
    assert(all.skip(0) =~= all);
    let mut i: usize = 0;
    while i < headers.len()
        invariant
            i <= headers.len(),
            all == urls::pair_views(headers@),
            header_defect(all) == header_defect(all.skip(i as int)),
        decreases headers.len() - i,
    {
        assert(all.skip(i as int)[0] == (headers@[i as int].0@, headers@[i as int].1@));
        assert(all.skip(i as int).drop_first() =~= all.skip(i + 1));
        let (name, value) = &headers[i];
        match header_verdict(
            name.as_str(),
            takes_header_name(name.as_str()),
            takes_header_value(value.as_str()),
        ) {
            Ok(()) => {},
            Err(e) => return Err(e),
        }
        i += 1;
    }
    Ok(())
}

impl SourceRegistry {
    /// Prepares a request: the URL to ask, upgraded where it is a plain `http` one.
    /// The source is looked at before the headers, and both before anything is
    /// sent.
    pub fn prepare(&self, source: &str, url: &WebUrl, headers: &Vec<(String, String)>) -> (r: Result<
        WebUrl,
        HttpError,
    >)
        ensures
            match registered(self@, source@) {
                None => r is Err && r->Err_0@ == (HttpErrorModel::UnknownSource {
                    source_key: source@,
                }),
                Some(_) => match header_defect(urls::pair_views(headers@)) {
                    Some(m) => r is Err && r->Err_0@ == m,
                    None => r is Ok && r->Ok_0@ == urls::upgraded(url@),
                },
            },
    {
        match self.require(source) {
            Err(e) => Err(e),
            Ok(_) => match check_headers(headers) {
                Err(e) => Err(e),
                Ok(()) => Ok(urls::upgrade_http_to_https(url)),
            },
        }
    }
}

// ---------------------------------------------------------------------------
// Retries
// ---------------------------------------------------------------------------

/// The statuses that are worth another try.
pub open spec fn transient_status(code: u16) -> bool {
    code == 408 || code == 429 || code == 500 || code == 502 || code == 503 || code == 504
}

/// Whether a status is worth another try.
pub fn is_transient_status(code: u16) -> (r: bool)
    ensures
        r == transient_status(code),
{
    matches!(code, 408 | 429 | 500 | 502 | 503 | 504)
}

/// Whether a transport error is worth another try: a timeout, a failure to
/// connect or a broken body, but never a refused redirect.
pub fn transport_is_transient(
    timeout: bool,
    connect: bool,
    body: bool,
    redirect: bool,
) -> (r: bool)
    ensures
        r == ((timeout || connect || body) && !redirect),
{
    (timeout || connect || body) && !redirect
}

pub open spec fn min_of(a: int, b: int) -> int {
    if a <= b {
        a
    } else {
        b
    }
}

/// The delay that a `Retry-After` header asks for, in milliseconds: a number of
/// seconds, up to the longest delay; `None` for anything else.
pub open spec fn retry_after_ms(header: Seq<char>) -> Option<u64> {
    match text::unsigned_of(text::trim(header)) {
        Some(secs) => Some((min_of(secs as int, RETRY_MAX_DELAY_SEC as int) * 1000) as u64),
        None => None,
    }
}

/// Reads a `Retry-After` header.
pub fn parse_retry_after(header: &str) -> (r: Option<u64>)
    ensures
        r == retry_after_ms(header@),
{
    let t = text::trim_of(header);
    match text::parse_unsigned(t.as_str()) {
        Some(secs) => Some(
            if secs <= RETRY_MAX_DELAY_SEC {
                secs * 1000
            } else {
                RETRY_MAX_DELAY_SEC * 1000
            },
        ),
        None => None,
    }
}

/// The delay before retry number `attempt + 1`: the base delay doubled
/// `attempt` times, up to the longest delay, and a jitter below the base.
pub open spec fn backoff_ms(attempt: nat, subsec_nanos: nat) -> int {
    min_of(
        RETRY_BASE_DELAY_MS * vstd::arithmetic::power2::pow2(min_of(attempt as int, 20) as nat),
        RETRY_MAX_DELAY_MS as int,
    ) + subsec_nanos % (RETRY_BASE_DELAY_MS as nat)
}

/// The delay before a retry. The jitter is drawn from the nanoseconds of the
/// clock.
pub fn backoff_delay(attempt: u32, subsec_nanos: u32) -> (r: u64)
    ensures
        r == backoff_ms(attempt as nat, subsec_nanos as nat),
        r < RETRY_MAX_DELAY_MS + RETRY_BASE_DELAY_MS,
{
    let k: u32 = if attempt < 20 {
        attempt
    } else {
        20
    };
    let mut ms: u64 = RETRY_BASE_DELAY_MS;
    let mut i: u32 = 0;
    proof {
        vstd::arithmetic::power2::lemma2_to64();
    }
    while i < k
        invariant
            i <= k <= 20,
            ms == RETRY_BASE_DELAY_MS * vstd::arithmetic::power2::pow2(i as nat),
            ms <= RETRY_BASE_DELAY_MS * 1048576,
            vstd::arithmetic::power2::pow2(20) == 1048576,
        decreases k - i,
    {
        proof {
            vstd::arithmetic::power2::lemma_pow2_unfold((i + 1) as nat);
            if i + 1 < 20 {
                vstd::arithmetic::power2::lemma_pow2_strictly_increases((i + 1) as nat, 20);
            }
        }
        ms = ms * 2;
        i += 1;
    }
    let capped = if ms <= RETRY_MAX_DELAY_MS {
        ms
    } else {
        RETRY_MAX_DELAY_MS
    };
    capped + (subsec_nanos as u64) % RETRY_BASE_DELAY_MS
}

// ---------------------------------------------------------------------------
// One fetch
// ---------------------------------------------------------------------------

/// The bytes that every PDF starts with, `%PDF-`.
pub open spec fn pdf_magic() -> Seq<u8> {
    seq![0x25u8, 0x50u8, 0x44u8, 0x46u8, 0x2Du8]
}

/// The first five bytes of a body, padded with zeros.
pub open spec fn first_five(body: Seq<u8>) -> Seq<u8> {
    Seq::new(
        5,
        |i: int|
            if i < body.len() {
                body[i]
            } else {
                0u8
            },
    )
}

/// How far a fetch has come: the retries made so far, and the body of the
/// current try.
#[derive(Debug)]
pub struct FetchProgress {
    pub(crate) attempt: u32,
    pub(crate) check_pdf_magic: bool,
    pub(crate) body: Vec<u8>,
}

/// How far a fetch has come.
pub struct ProgressModel {
    pub attempt: nat,
    pub check_pdf_magic: bool,
    pub body: Seq<u8>,
}

/// What the transport reports.
#[derive(Debug)]
pub enum FetchEvent {
    /// The request could not be sent, or no response came.
    SendFailed {
        /// Another try may help.
        transient: bool,
    },
    /// The head of a response is there.
    Responded {
        /// Its status.
        status: u16,
        /// The URL after all redirects.
        final_url: WebUrl,
        /// The `Retry-After` header, where it is a text.
        retry_after: Option<String>,
        /// The announced length of the body.
        content_length: Option<u64>,
    },
    /// A piece of the body is there.
    Chunk {
        /// The piece.
        bytes: Vec<u8>,
    },
    /// The body broke off.
    StreamFailed {
        /// Another try may help.
        transient: bool,
    },
    /// The body is complete.
    BodyEnded,
}

/// What the transport reports.
pub enum EventModel {
    SendFailed { transient: bool },
    Responded {
        status: u16,
        final_url: UrlModel,
        retry_after: Option<Seq<char>>,
        content_length: Option<u64>,
    },
    Chunk { bytes: Seq<u8> },
    StreamFailed { transient: bool },
    BodyEnded,
}

/// What is done next.
#[derive(Debug, PartialEq, Eq)]
pub enum FetchAction {
    /// Wait, then send the request again.
    Retry {
        /// How long to wait, in milliseconds.
        delay_ms: u64,
    },
    /// Read on.
    Read,
    /// The fetch fails with the transport's own error.
    TransportError,
    /// The fetch fails.
    Fail(HttpError),
    /// The body is complete and accepted.
    Finish,
}

/// What is done next.
pub enum ActionModel {
    Retry { delay_ms: int },
    Read,
    TransportError,
    Fail(HttpErrorModel),
    Finish,
}

impl View for FetchProgress {
    type V = ProgressModel;

    closed spec fn view(&self) -> ProgressModel {
        ProgressModel {
            attempt: self.attempt as nat,
            check_pdf_magic: self.check_pdf_magic,
            body: self.body@,
        }
    }
}

impl View for FetchEvent {
    type V = EventModel;

    open spec fn view(&self) -> EventModel {
        match *self {
            FetchEvent::SendFailed { transient } => EventModel::SendFailed { transient },
            FetchEvent::Responded { status, final_url, retry_after, content_length } =>
                EventModel::Responded {
                status,
                final_url: final_url@,
                retry_after: text::opt_view(retry_after),
                content_length,
            },
            FetchEvent::Chunk { bytes } => EventModel::Chunk { bytes: bytes@ },
            FetchEvent::StreamFailed { transient } => EventModel::StreamFailed { transient },
            FetchEvent::BodyEnded => EventModel::BodyEnded,
        }
    }
}

impl View for FetchAction {
    type V = ActionModel;

    open spec fn view(&self) -> ActionModel {
        match *self {
            FetchAction::Retry { delay_ms } => ActionModel::Retry { delay_ms: delay_ms as int },
            FetchAction::Read => ActionModel::Read,
            FetchAction::TransportError => ActionModel::TransportError,
            FetchAction::Fail(e) => ActionModel::Fail(e@),
            FetchAction::Finish => ActionModel::Finish,
        }
    }
}

/// What holds of a fetch at all times: the retries are counted, and the body
/// is within the cap.
pub open spec fn progress_valid(p: ProgressModel) -> bool {
    p.attempt <= MAX_FETCH_RETRIES && p.body.len() <= PDF_MAX_BYTES
}

/// The fetch after another try was decided on: nothing of the body is kept.
pub open spec fn next_try(p: ProgressModel) -> ProgressModel {
    ProgressModel { attempt: p.attempt + 1, body: Seq::empty(), ..p }
}

/// A transport error is followed by another try, or ends the fetch.
pub open spec fn after_transport_error(
    p: ProgressModel,
    transient: bool,
    subsec_nanos: nat,
) -> (ProgressModel, ActionModel) {
    if transient && p.attempt < MAX_FETCH_RETRIES {
        (next_try(p), ActionModel::Retry { delay_ms: backoff_ms(p.attempt, subsec_nanos) })
    } else {
        (p, ActionModel::TransportError)
    }
}

/// How a fetch goes on.
pub open spec fn fetch_step(
    p: ProgressModel,
    e: EventModel,
    subsec_nanos: nat,
) -> (ProgressModel, ActionModel) {
    match e {
        EventModel::SendFailed { transient } => after_transport_error(p, transient, subsec_nanos),
        EventModel::StreamFailed { transient } => after_transport_error(p, transient, subsec_nanos),
        EventModel::Responded { status, final_url, retry_after, content_length } => {
            if !(200 <= status < 300) {
                if transient_status(status) && p.attempt < MAX_FETCH_RETRIES {
                    let asked = match retry_after {
                        Some(h) => retry_after_ms(h),
                        None => None,
                    };
                    let delay_ms = match asked {
                        Some(ms) => ms as int,
                        None => backoff_ms(p.attempt, subsec_nanos),
                    };
                    (next_try(p), ActionModel::Retry { delay_ms })
                } else {
                    (
                        p,
                        ActionModel::Fail(
                            HttpErrorModel::HttpStatus {
                                status,
                                url: urls::redacted_href(final_url),
                            },
                        ),
                    )
                }
            } else if content_length is Some && content_length->Some_0 > PDF_MAX_BYTES {
                (
                    p,
                    ActionModel::Fail(
                        HttpErrorModel::OversizedBody {
                            actual: content_length->Some_0,
                            cap: PDF_MAX_BYTES,
                        },
                    ),
                )
            } else {
                (p, ActionModel::Read)
            }
        },
        EventModel::Chunk { bytes } => {
            if p.body.len() + bytes.len() > PDF_MAX_BYTES {
                (
                    p,
                    ActionModel::Fail(
                        HttpErrorModel::OversizedBody {
                            actual: min_of((p.body.len() + bytes.len()) as int, u64::MAX as int) as u64,
                            cap: PDF_MAX_BYTES,
                        },
                    ),
                )
            } else {
                (ProgressModel { body: p.body + bytes, ..p }, ActionModel::Read)
            }
        },
        EventModel::BodyEnded => {
            if p.check_pdf_magic && first_five(p.body) != pdf_magic() {
                (p, ActionModel::Fail(HttpErrorModel::NotAPdf { got: first_five(p.body) }))
            } else {
                (p, ActionModel::Finish)
            }
        },
    }
}

impl FetchProgress {
    #[verifier::type_invariant]
    closed spec fn wf(&self) -> bool {
        self.attempt <= MAX_FETCH_RETRIES && self.body@.len() <= PDF_MAX_BYTES
    }

    /// A fetch before its first try.
    pub fn start(check_pdf_magic: bool) -> (r: FetchProgress)
        ensures
            r@ == (ProgressModel { attempt: 0, check_pdf_magic, body: Seq::empty() }),
    {
        FetchProgress { attempt: 0, check_pdf_magic, body: Vec::new() }
    }

    /// The bytes of the body so far.
    pub fn into_body(self) -> (r: Vec<u8>)
        ensures
            r@ == self@.body,
            progress_valid(self@),
    {
        proof {
            use_type_invariant(&self);
        }
        self.body
    }

    fn retry_or_fail(&mut self, transient: bool, subsec_nanos: u32) -> (r: FetchAction)
        ensures
            (final(self)@, r@) == after_transport_error(old(self)@, transient, subsec_nanos as nat),
    {
        proof {
            use_type_invariant(&*self);
        }
        if transient && self.attempt < MAX_FETCH_RETRIES {
            let delay_ms = backoff_delay(self.attempt, subsec_nanos);
            self.attempt = self.attempt + 1;
            self.body = Vec::new();
            FetchAction::Retry { delay_ms }
        } else {
            FetchAction::TransportError
        }
    }

    /// Decides what follows on an event. `subsec_nanos` is the sub-second part
    /// of the clock, which the backoff draws its jitter from.
    pub fn step(&mut self, event: FetchEvent, subsec_nanos: u32) -> (r: FetchAction)
        ensures
            (final(self)@, r@) == fetch_step(old(self)@, event@, subsec_nanos as nat),
    {
        proof {
            use_type_invariant(&*self);
        }
        match event {
            FetchEvent::SendFailed { transient } => self.retry_or_fail(transient, subsec_nanos),
            FetchEvent::StreamFailed { transient } => self.retry_or_fail(transient, subsec_nanos),
            FetchEvent::Responded { status, final_url, retry_after, content_length } => {
                if !(200 <= status && status < 300) {
                    if is_transient_status(status) && self.attempt < MAX_FETCH_RETRIES {
                        let asked = match &retry_after {
                            Some(h) => parse_retry_after(h.as_str()),
                            None => None,
                        };
                        let delay_ms = match asked {
                            Some(ms) => ms,
                            None => backoff_delay(self.attempt, subsec_nanos),
                        };
                        self.attempt = self.attempt + 1;
                        self.body = Vec::new();
                        return FetchAction::Retry { delay_ms };
                    }
                    return FetchAction::Fail(
                        HttpError::HttpStatus {
                            status,
                            url: urls::redact_api_key_query(&final_url),
                        },
                    );
                }
                match content_length {
                    Some(len) => if len > PDF_MAX_BYTES {
                        return FetchAction::Fail(
                            HttpError::OversizedBody { actual: len, cap: PDF_MAX_BYTES },
                        );
                    },
                    None => {},
                }
                FetchAction::Read
            },
            FetchEvent::Chunk { bytes } => {
                let projected = (self.body.len() as u64).saturating_add(bytes.len() as u64);
                if projected > PDF_MAX_BYTES {
                    return FetchAction::Fail(
                        HttpError::OversizedBody { actual: projected, cap: PDF_MAX_BYTES },
                    );
                }
                let mut body: Vec<u8> = Vec::new();
                let mut more = bytes;
                std::mem::swap(&mut body, &mut self.body);
                body.append(&mut more);
                self.body = body;
                FetchAction::Read
            },
            FetchEvent::BodyEnded => {
                if self.check_pdf_magic {
                    let mut got: [u8; 5] = [0, 0, 0, 0, 0];
                    let mut i: usize = 0;
                    while i < 5 && i < self.body.len()
                        invariant
                            i <= 5,
                            i <= self.body.len(),
                            got@.len() == 5,
                            forall|j: int| 0 <= j < i ==> got@[j] == self.body@[j],
                            forall|j: int| i <= j < 5 ==> got@[j] == 0u8,
                        decreases 5 - i,
                    {
                        got[i] = self.body[i];
                        i += 1;
                    }
                    assert(got@ =~= first_five(self.body@));
                    let is_pdf = got[0] == 0x25 && got[1] == 0x50 && got[2] == 0x44 && got[3] == 0x46
                        && got[4] == 0x2D;
                    assert(is_pdf <==> got@ =~= pdf_magic());
                    if !is_pdf {
                        return FetchAction::Fail(HttpError::NotAPdf { got });
                    }
                }
                FetchAction::Finish
            },
        }
    }
}

/// Every step keeps the count of retries and the size of the body in bounds,
/// and each retry is counted, so that a fetch sends at most four requests.
pub proof fn law_retries_are_bounded(p: ProgressModel, e: EventModel, subsec_nanos: nat)
    requires
        progress_valid(p),
    ensures
        progress_valid(fetch_step(p, e, subsec_nanos).0),
        fetch_step(p, e, subsec_nanos).1 is Retry ==> fetch_step(p, e, subsec_nanos).0.attempt
            == p.attempt + 1,
        !(fetch_step(p, e, subsec_nanos).1 is Retry) ==> fetch_step(p, e, subsec_nanos).0.attempt
            == p.attempt,
        p.attempt == MAX_FETCH_RETRIES ==> !(fetch_step(p, e, subsec_nanos).1 is Retry),
{
}

/// What cannot be mended by asking again is not asked again: a lasting status,
/// an oversized or wrong body, and a transport error that is not transient.
pub proof fn law_lasting_failures_are_not_retried(p: ProgressModel, e: EventModel, subsec_nanos: nat)
    requires
        match e {
            EventModel::SendFailed { transient } => !transient,
            EventModel::StreamFailed { transient } => !transient,
            EventModel::Responded { status, .. } => !transient_status(status),
            EventModel::Chunk { .. } => true,
            EventModel::BodyEnded => true,
        },
    ensures
        !(fetch_step(p, e, subsec_nanos).1 is Retry),
        fetch_step(p, e, subsec_nanos).0.attempt == p.attempt,
{
}

/// A body that is handed out is within the cap, and starts like a PDF where a
/// PDF was asked for.
pub proof fn law_accepted_bodies_are_sound(p: ProgressModel, e: EventModel, subsec_nanos: nat)
    requires
        progress_valid(p),
        fetch_step(p, e, subsec_nanos).1 is Finish,
    ensures
        fetch_step(p, e, subsec_nanos).0.body.len() <= PDF_MAX_BYTES,
        p.check_pdf_magic ==> pdf_magic().is_prefix_of(fetch_step(p, e, subsec_nanos).0.body),
{
    if p.check_pdf_magic {
        let m = pdf_magic();
        assert(first_five(p.body) == m);
        assert forall|i: int| 0 <= i < 5 implies i < p.body.len() && p.body[i] == m[i] by {
            assert(first_five(p.body)[i] == m[i]);
        }
        assert(p.body.len() >= 5) by {
            assert(4 < p.body.len());
        }
        assert(p.body.subrange(0, 5) =~= m);
    }
}

/// A redirect to anything but HTTPS is refused with its scheme; the tenth hop is
/// the last; a host that is not listed is refused with its name and with the
/// hosts that are.
pub proof fn law_redirects_are_judged(
    allow: AllowModel,
    scheme: Seq<char>,
    host: Seq<char>,
    hops: nat,
)
    ensures
        scheme != "https"@ ==> redirect_verdict(allow, scheme, Some(host), hops)
            == VerdictModel::Deny(HttpErrorModel::InsecureRedirect { scheme }),
        hops >= 10 ==> redirect_verdict(allow, "https"@, Some(host), hops) is Stop,
        hops < 10 && allowlist::allowed(host, allow.hosts) ==> redirect_verdict(
            allow,
            "https"@,
            Some(host),
            hops,
        ) is Follow,
        hops < 10 && !allowlist::allowed(host, allow.hosts) ==> redirect_verdict(
            allow,
            "https"@,
            Some(host),
            hops,
        ) == VerdictModel::Deny(
            HttpErrorModel::RedirectDenied {
                source_key: allow.source,
                host: text::lower(host),
                expected_hosts: allow.hosts,
            },
        ),
        hops < 10 ==> redirect_verdict(allow, "https"@, None, hops) == VerdictModel::Deny(
            HttpErrorModel::RedirectDenied {
                source_key: allow.source,
                host: Seq::empty(),
                expected_hosts: allow.hosts,
            },
        ),
{
}

/// A source has the hosts of its last registration, and none where it was never
/// registered.
pub proof fn law_the_last_registration_counts(a: Seq<AllowModel>, m: AllowModel, b: Seq<AllowModel>)
    requires
        forall|i: int| 0 <= i < b.len() ==> (#[trigger] b[i]).source != m.source,
    ensures
        registered(a.push(m) + b, m.source) == Some(m),
        registered(b, m.source) is None,
    decreases b.len(),
{
    let all = a.push(m) + b;
    if b.len() == 0 {
        assert(all =~= a.push(m));
        assert(all.last() == m);
    } else {
        let d = b.drop_last();
        assert forall|i: int| 0 <= i < d.len() implies (#[trigger] d[i]).source != m.source by {
            assert(d[i] == b[i]);
        }
        law_the_last_registration_counts(a, m, d);
        assert(all.drop_last() =~= a.push(m) + d);
        assert(all.last() == b[b.len() - 1]);
        assert(b[b.len() - 1].source != m.source);
    }
}

/// The first header that cannot be sent is the one that is told.
pub proof fn law_the_first_bad_header_is_told(
    a: Seq<(Seq<char>, Seq<char>)>,
    name: Seq<char>,
    value: Seq<char>,
    b: Seq<(Seq<char>, Seq<char>)>,
)
    requires
        forall|i: int|
            0 <= i < a.len() ==> header_name_ok((#[trigger] a[i]).0) && header_value_ok(a[i].1),
    ensures
        header_defect(a) is None,
        !header_name_ok(name) ==> header_defect(a.push((name, value)) + b) == Some(
            HttpErrorModel::InvalidHeader { name, reason: "name"@ },
        ),
        header_name_ok(name) && !header_value_ok(value) ==> header_defect(
            a.push((name, value)) + b,
        ) == Some(HttpErrorModel::InvalidHeader { name, reason: "value"@ }),
    decreases a.len(),
{
    let all = a.push((name, value)) + b;
    if a.len() > 0 {
        let d = a.drop_first();
        assert forall|i: int| 0 <= i < d.len() implies header_name_ok((#[trigger] d[i]).0)
            && header_value_ok(d[i].1) by {
            assert(d[i] == a[i + 1]);
        }
        law_the_first_bad_header_is_told(d, name, value, b);
        assert(header_name_ok(a[0].0));
        assert(all[0] == a[0]);
        assert(all.drop_first() =~= d.push((name, value)) + b);
    } else {
        assert(all[0] == (name, value));
    }
}

/// The body is every chunk, one behind the other: two chunks leave what one
/// chunk of both would.
pub proof fn law_chunks_make_up_the_body(
    p: ProgressModel,
    a: Seq<u8>,
    b: Seq<u8>,
    nanos: nat,
    later: nat,
)
    requires
        p.body.len() + a.len() + b.len() <= 100_000_000,
    ensures
        fetch_step(p, EventModel::Chunk { bytes: a }, nanos).1 is Read,
        fetch_step(p, EventModel::Chunk { bytes: a }, nanos).0 == (ProgressModel {
            body: p.body + a,
            ..p
        }),
        fetch_step(
            fetch_step(p, EventModel::Chunk { bytes: a }, nanos).0,
            EventModel::Chunk { bytes: b },
            later,
        ) == fetch_step(p, EventModel::Chunk { bytes: a + b }, nanos),
{
    assert(p.body + a + b =~= p.body + (a + b));
}

/// A body of more than a hundred million bytes is refused, whether it is
/// announced or arrives.
pub proof fn law_large_bodies_are_refused(
    p: ProgressModel,
    bytes: Seq<u8>,
    status: u16,
    url: UrlModel,
    after: Option<Seq<char>>,
    length: u64,
    nanos: nat,
)
    requires
        200 <= status < 300,
    ensures
        100_000_000 < p.body.len() + bytes.len() <= u64::MAX ==> fetch_step(
            p,
            EventModel::Chunk { bytes },
            nanos,
        ).1 == ActionModel::Fail(
            HttpErrorModel::OversizedBody {
                actual: (p.body.len() + bytes.len()) as u64,
                cap: 100_000_000,
            },
        ),
        length > 100_000_000 ==> fetch_step(
            p,
            EventModel::Responded {
                status,
                final_url: url,
                retry_after: after,
                content_length: Some(length),
            },
            nanos,
        ) == (
            p,
            ActionModel::Fail(
                HttpErrorModel::OversizedBody { actual: length, cap: 100_000_000 },
            ),
        ),
        length <= 100_000_000 ==> fetch_step(
            p,
            EventModel::Responded {
                status,
                final_url: url,
                retry_after: after,
                content_length: Some(length),
            },
            nanos,
        ) == (p, ActionModel::Read),
        fetch_step(
            p,
            EventModel::Responded {
                status,
                final_url: url,
                retry_after: after,
                content_length: None,
            },
            nanos,
        ) == (p, ActionModel::Read),
{
}

/// A failed answer is tried again three times where another try may help, with
/// an empty body; every other one is told with its status and the URL without
/// its secrets.
pub proof fn law_failed_answers_are_tried_again(
    p: ProgressModel,
    status: u16,
    url: UrlModel,
    after: Option<Seq<char>>,
    length: Option<u64>,
    nanos: nat,
)
    requires
        !(200 <= status < 300),
    ensures
        ({
            let e = EventModel::Responded {
                status,
                final_url: url,
                retry_after: after,
                content_length: length,
            };
            let passing = seq![408u16, 429u16, 500u16, 502u16, 503u16, 504u16].contains(status);
            let (q, action) = fetch_step(p, e, nanos);
            &&& passing && p.attempt < 3 ==> {
                &&& action is Retry
                &&& q.attempt == p.attempt + 1
                &&& q.body.len() == 0
                &&& q.check_pdf_magic == p.check_pdf_magic
                &&& after is None ==> action->Retry_delay_ms == backoff_ms(p.attempt, nanos)
                &&& after is Some && text::unsigned_of(text::trim(after->Some_0)) is None
                    ==> action->Retry_delay_ms == backoff_ms(p.attempt, nanos)
            }
            &&& !(passing && p.attempt < 3) ==> q == p && action == ActionModel::Fail(
                HttpErrorModel::HttpStatus { status, url: urls::redacted_href(url) },
            )
        }),
{
    let s = seq![408u16, 429u16, 500u16, 502u16, 503u16, 504u16];
    assert(s[0] == 408 && s[1] == 429 && s[2] == 500 && s[3] == 502 && s[4] == 503 && s[5] == 504);
    if s.contains(status) {
        let i = choose|i: int| 0 <= i < s.len() && s[i] == status;
        assert(i == 0 || i == 1 || i == 2 || i == 3 || i == 4 || i == 5);
    }
}

/// A broken connection is tried again three times where another try may help.
pub proof fn law_broken_connections_are_tried_again(
    p: ProgressModel,
    passing: bool,
    nanos: nat,
)
    ensures
        ({
            let sent = fetch_step(p, EventModel::SendFailed { transient: passing }, nanos);
            let read = fetch_step(p, EventModel::StreamFailed { transient: passing }, nanos);
            &&& sent == read
            &&& passing && p.attempt < 3 ==> {
                &&& sent.1 == (ActionModel::Retry { delay_ms: backoff_ms(p.attempt, nanos) })
                &&& sent.0 == (ProgressModel {
                    attempt: p.attempt + 1,
                    check_pdf_magic: p.check_pdf_magic,
                    body: Seq::empty(),
                })
            }
            &&& !(passing && p.attempt < 3) ==> sent == (p, ActionModel::TransportError)
        }),
{
}

/// A server that names the seconds to wait is waited for that long, and for half
/// a minute at most.
pub proof fn law_servers_say_how_long_to_wait(
    p: ProgressModel,
    url: UrlModel,
    header: Seq<char>,
    secs: nat,
    nanos: nat,
)
    requires
        text::trim(header) == text::decimal(secs),
        secs <= u64::MAX,
        p.attempt < 3,
    ensures
        retry_after_ms(header) == Some(
            (1000 * if secs <= 30 {
                secs
            } else {
                30
            }) as u64,
        ),
        fetch_step(
            p,
            EventModel::Responded {
                status: 429,
                final_url: url,
                retry_after: Some(header),
                content_length: None,
            },
            nanos,
        ).1 == (ActionModel::Retry {
            delay_ms: 1000 * if secs <= 30 {
                secs as int
            } else {
                30
            },
        }),
{
    text::law_decimal_reads_back(secs);
}

/// The delay starts at half a second, doubles with every try up to half a
/// minute, and is spread by less than half a second.
pub proof fn law_delays_double(attempt: nat, nanos: nat)
    ensures
        backoff_ms(0, 0) == 500,
        backoff_ms(attempt + 1, 0) == if 2 * backoff_ms(attempt, 0) <= 30_000 {
            2 * backoff_ms(attempt, 0)
        } else {
            30_000
        },
        backoff_ms(attempt, nanos) == backoff_ms(attempt, 0) + nanos % 500,
{
    vstd::arithmetic::power2::lemma2_to64();
    vstd::arithmetic::power2::lemma_pow2_pos(min_of(attempt as int, 20) as nat);
    if attempt < 20 {
        vstd::arithmetic::power2::lemma_pow2_unfold((attempt + 1) as nat);
    } else {
        assert(vstd::arithmetic::power2::pow2(20) == 0x10_0000);
    }
}

/// A body that must be a document is one where it begins as one does; else its
/// first five bytes are told.
pub proof fn law_documents_are_known_by_their_first_bytes(p: ProgressModel, nanos: nat)
    ensures
        ({
            let (q, action) = fetch_step(p, EventModel::BodyEnded, nanos);
            let document = p.body.len() >= 5 && p.body[0] == 0x25 && p.body[1] == 0x50 && p.body[2]
                == 0x44 && p.body[3] == 0x46 && p.body[4] == 0x2D;
            &&& q == p
            &&& !p.check_pdf_magic || document ==> action is Finish
            &&& p.check_pdf_magic && !document ==> (action matches ActionModel::Fail(
                HttpErrorModel::NotAPdf { got },
            ) && got.len() == 5 && forall|i: int|
                0 <= i < 5 ==> #[trigger] got[i] == if i < p.body.len() {
                    p.body[i]
                } else {
                    0u8
                })
        }),
{
    let m = pdf_magic();
    let f = first_five(p.body);
    assert(m[0] == 0x25 && m[1] == 0x50 && m[2] == 0x44 && m[3] == 0x46 && m[4] == 0x2D);
    assert(m.len() == 5);
    if p.body.len() >= 5 && p.body[0] == 0x25 && p.body[1] == 0x50 && p.body[2] == 0x44
        && p.body[3] == 0x46 && p.body[4] == 0x2D {
        assert(f =~= m);
    } else if f == m {
        assert(f[0] == 0x25 && f[1] == 0x50 && f[2] == 0x44 && f[3] == 0x46 && f[4] == 0x2D);
    }
}

} // verus!
