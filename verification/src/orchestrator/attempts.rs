//! The trace of a resolution: which sources were asked, and what came of it.

use crate::errors::DenialContext;
use crate::errors::DenialModel;
use crate::errors::DenialReason;
use crate::json;
use crate::json::Json;
use crate::json::JsonModel;
use crate::json::JsonNumber;
use crate::source;
use crate::source::FetchError;
use crate::text;
use vstd::prelude::*;

verus! {

/// Why a source did or did not contribute. That it was asked and had nothing
/// is not the same as that it was never asked.
#[derive(Debug, Clone, PartialEq, Eq)]
#[non_exhaustive]
pub enum AttemptOutcome {
    /// Not consulted: the source is not switched on.
    Disabled {
        /// Every variable that has to be set.
        env: &'static [&'static str],
    },
    /// Not consulted: the source cannot serve this kind of reference.
    NotApplicable,
    /// Not consulted: the DOI belongs to another publisher.
    WrongPublisher {
        /// The prefix that does not match.
        detail: String,
    },
    /// Not consulted: an earlier source answered.
    NotNeeded,
    /// Consulted: there is no record.
    NoRecord,
    /// Consulted: there is a record, but no open copy.
    NotOpenAccess {
        /// What the source says.
        detail: String,
    },
    /// Consulted, and refused by a rule of the transport.
    Denied {
        /// The denial.
        denial: DenialContext,
    },
    /// Consulted: the request failed.
    Failed {
        /// The error.
        detail: String,
    },
    /// Consulted, and it answered.
    Resolved,
}

/// What an outcome holds.
pub enum OutcomeModel {
    Disabled { env: Seq<Seq<char>> },
    NotApplicable,
    WrongPublisher { detail: Seq<char> },
    NotNeeded,
    NoRecord,
    NotOpenAccess { detail: Seq<char> },
    Denied { denial: DenialModel },
    Failed { detail: Seq<char> },
    Resolved,
}

/// What a list of strings holds.
pub open spec fn str_views(v: Seq<&'static str>) -> Seq<Seq<char>> {
    Seq::new(v.len(), |i: int| v[i]@)
}

impl View for AttemptOutcome {
    type V = OutcomeModel;

    open spec fn view(&self) -> OutcomeModel {
        match *self {
            AttemptOutcome::Disabled { env } => OutcomeModel::Disabled { env: str_views(env@) },
            AttemptOutcome::NotApplicable => OutcomeModel::NotApplicable,
            AttemptOutcome::WrongPublisher { detail } => OutcomeModel::WrongPublisher {
                detail: detail@,
            },
            AttemptOutcome::NotNeeded => OutcomeModel::NotNeeded,
            AttemptOutcome::NoRecord => OutcomeModel::NoRecord,
            AttemptOutcome::NotOpenAccess { detail } => OutcomeModel::NotOpenAccess {
                detail: detail@,
            },
            AttemptOutcome::Denied { denial } => OutcomeModel::Denied { denial: denial@ },
            AttemptOutcome::Failed { detail } => OutcomeModel::Failed { detail: detail@ },
            AttemptOutcome::Resolved => OutcomeModel::Resolved,
        }
    }
}

/// Whether a request went out.
pub open spec fn consulted(o: OutcomeModel) -> bool {
    o is NoRecord || o is NotOpenAccess || o is Denied || o is Failed || o is Resolved
}

/// The stable token of an outcome.
pub open spec fn wire_token(o: OutcomeModel) -> Seq<char> {
    match o {
        OutcomeModel::Disabled { .. } => "not_consulted_disabled"@,
        OutcomeModel::NotApplicable => "not_consulted_not_applicable"@,
        OutcomeModel::WrongPublisher { .. } => "not_consulted_wrong_publisher"@,
        OutcomeModel::NotNeeded => "not_consulted_not_needed"@,
        OutcomeModel::NoRecord => "consulted_no_record"@,
        OutcomeModel::NotOpenAccess { .. } => "consulted_not_open_access"@,
        OutcomeModel::Denied { .. } => "consulted_denied"@,
        OutcomeModel::Failed { .. } => "consulted_failed"@,
        OutcomeModel::Resolved => "consulted_resolved"@,
    }
}

/// The free text of an outcome.
pub open spec fn free_text(o: OutcomeModel) -> Option<Seq<char>> {
    match o {
        OutcomeModel::WrongPublisher { detail } => Some(detail),
        OutcomeModel::NotOpenAccess { detail } => Some(detail),
        OutcomeModel::Failed { detail } => Some(detail),
        _ => None,
    }
}

/// The name of a reason.
pub open spec fn reason_name(r: DenialReason) -> Seq<char> {
    match r {
        DenialReason::RedirectNotInAllowlist => "RedirectNotInAllowlist"@,
        DenialReason::InsecureScheme => "InsecureScheme"@,
        DenialReason::HostInBlockList => "HostInBlockList"@,
        DenialReason::SizeCapExceeded => "SizeCapExceeded"@,
        DenialReason::SchemaDrift => "SchemaDrift"@,
        DenialReason::CapabilityNotGranted => "CapabilityNotGranted"@,
        DenialReason::RateLimitWindow => "RateLimitWindow"@,
        DenialReason::SsrfPrivateAddress => "SsrfPrivateAddress"@,
        DenialReason::ContentTypeMismatch => "ContentTypeMismatch"@,
    }
}

fn name_of_reason(r: DenialReason) -> (s: &'static str)
    ensures
        s@ == reason_name(r),
{
    match r {
        DenialReason::RedirectNotInAllowlist => "RedirectNotInAllowlist",
        DenialReason::InsecureScheme => "InsecureScheme",
        DenialReason::HostInBlockList => "HostInBlockList",
        DenialReason::SizeCapExceeded => "SizeCapExceeded",
        DenialReason::SchemaDrift => "SchemaDrift",
        DenialReason::CapabilityNotGranted => "CapabilityNotGranted",
        DenialReason::RateLimitWindow => "RateLimitWindow",
        DenialReason::SsrfPrivateAddress => "SsrfPrivateAddress",
        DenialReason::ContentTypeMismatch => "ContentTypeMismatch",
    }
}

/// The token of a reason.
pub open spec fn reason_token(r: DenialReason) -> Seq<char> {
    match r {
        DenialReason::RedirectNotInAllowlist => "redirect_not_in_allowlist"@,
        DenialReason::InsecureScheme => "insecure_scheme"@,
        DenialReason::HostInBlockList => "host_in_block_list"@,
        DenialReason::SizeCapExceeded => "size_cap_exceeded"@,
        DenialReason::SchemaDrift => "schema_drift"@,
        DenialReason::CapabilityNotGranted => "capability_not_granted"@,
        DenialReason::RateLimitWindow => "rate_limit_window"@,
        DenialReason::SsrfPrivateAddress => "ssrf_private_address"@,
        DenialReason::ContentTypeMismatch => "content_type_mismatch"@,
    }
}

fn token_of_reason(r: DenialReason) -> (s: &'static str)
    ensures
        s@ == reason_token(r),
{
    match r {
        DenialReason::RedirectNotInAllowlist => "redirect_not_in_allowlist",
        DenialReason::InsecureScheme => "insecure_scheme",
        DenialReason::HostInBlockList => "host_in_block_list",
        DenialReason::SizeCapExceeded => "size_cap_exceeded",
        DenialReason::SchemaDrift => "schema_drift",
        DenialReason::CapabilityNotGranted => "capability_not_granted",
        DenialReason::RateLimitWindow => "rate_limit_window",
        DenialReason::SsrfPrivateAddress => "ssrf_private_address",
        DenialReason::ContentTypeMismatch => "content_type_mismatch",
    }
}

/// An outcome as one line.
pub open spec fn rendered(o: OutcomeModel) -> Seq<char> {
    match o {
        OutcomeModel::Disabled { env } => "not consulted (set "@ + text::join(env, " + "@)
            + " to enable)"@,
        OutcomeModel::NotApplicable => "not consulted (cannot serve this ref kind)"@,
        OutcomeModel::WrongPublisher { detail } => "not consulted ("@ + detail + ")"@,
        OutcomeModel::NotNeeded => "not consulted (an earlier source answered)"@,
        OutcomeModel::NoRecord => "consulted: no record"@,
        OutcomeModel::NotOpenAccess { detail } => "consulted: found, not open access ("@ + detail
            + ")"@,
        OutcomeModel::Denied { denial } => match denial.attempted {
            Some(a) => "consulted: refused ("@ + reason_name(denial.reason) + ", "@ + a + ")"@,
            None => "consulted: refused ("@ + reason_name(denial.reason) + ")"@,
        },
        OutcomeModel::Failed { detail } => "consulted: failed ("@ + detail + ")"@,
        OutcomeModel::Resolved => "consulted: resolved"@,
    }
}

fn owned_strings(v: &'static [&'static str]) -> (r: Vec<String>)
    ensures
        text::views(r@) == str_views(v@),
{
    let mut out: Vec<String> = Vec::new();
    let mut i: usize = 0;
    while i < v.len()
        invariant
            i <= v.len(),
            out@.len() == i,
            forall|j: int| 0 <= j < i ==> (#[trigger] out@[j])@ == v@[j]@,
        decreases v.len() - i,
    {
        let s: &str = v[i];
        out.push(s.to_string());
        i += 1;
    }
    assert(text::views(out@) =~= str_views(v@));
    out
}

impl AttemptOutcome {
    /// Whether a request went out for this source.
    #[must_use]
    pub fn was_consulted(&self) -> (r: bool)
        ensures
            r == consulted(self@),
    {
        match self {
            AttemptOutcome::NoRecord => true,
            AttemptOutcome::NotOpenAccess { .. } => true,
            AttemptOutcome::Denied { .. } => true,
            AttemptOutcome::Failed { .. } => true,
            AttemptOutcome::Resolved => true,
            _ => false,
        }
    }

    /// The stable token of this outcome.
    #[must_use]
    pub fn wire(&self) -> (r: &'static str)
        ensures
            r@ == wire_token(self@),
    {
        match self {
            AttemptOutcome::Disabled { .. } => "not_consulted_disabled",
            AttemptOutcome::NotApplicable => "not_consulted_not_applicable",
            AttemptOutcome::WrongPublisher { .. } => "not_consulted_wrong_publisher",
            AttemptOutcome::NotNeeded => "not_consulted_not_needed",
            AttemptOutcome::NoRecord => "consulted_no_record",
            AttemptOutcome::NotOpenAccess { .. } => "consulted_not_open_access",
            AttemptOutcome::Denied { .. } => "consulted_denied",
            AttemptOutcome::Failed { .. } => "consulted_failed",
            AttemptOutcome::Resolved => "consulted_resolved",
        }
    }

    /// The free text of this outcome, where it has one.
    #[must_use]
    pub fn detail(&self) -> (r: Option<&str>)
        ensures
            match free_text(self@) {
                Some(d) => r is Some && r->Some_0@ == d,
                None => r is None,
            },
    {
        match self {
            AttemptOutcome::WrongPublisher { detail } => Some(detail.as_str()),
            AttemptOutcome::NotOpenAccess { detail } => Some(detail.as_str()),
            AttemptOutcome::Failed { detail } => Some(detail.as_str()),
            _ => None,
        }
    }

    /// The variables that have to be set, where the source is switched off.
    #[must_use]
    pub fn required_env(&self) -> (r: Option<&'static [&'static str]>)
        ensures
            match *self {
                AttemptOutcome::Disabled { env } => r == Some(env),
                _ => r is None,
            },
    {
        match self {
            AttemptOutcome::Disabled { env } => Some(*env),
            _ => None,
        }
    }

    /// The denial, where the request was refused.
    #[must_use]
    pub fn denial(&self) -> (r: Option<&DenialContext>)
        ensures
            match *self {
                AttemptOutcome::Denied { denial } => r == Some(&denial),
                _ => r is None,
            },
    {
        match self {
            AttemptOutcome::Denied { denial } => Some(denial),
            _ => None,
        }
    }

    /// This outcome as one line.
    #[must_use]
    pub fn render(&self) -> (r: String)
        ensures
            r@ == rendered(self@),
    {
        match self {
            AttemptOutcome::Disabled { env } => "not consulted (set ".to_string().concat(
                text::join_of(owned_strings(*env).as_slice(), " + ").as_str(),
            ).concat(" to enable)"),
            AttemptOutcome::NotApplicable =>
                "not consulted (cannot serve this ref kind)".to_string(),
            AttemptOutcome::WrongPublisher { detail } => "not consulted (".to_string().concat(
                detail.as_str(),
            ).concat(")"),
            AttemptOutcome::NotNeeded =>
                "not consulted (an earlier source answered)".to_string(),
            AttemptOutcome::NoRecord => "consulted: no record".to_string(),
            AttemptOutcome::NotOpenAccess { detail } =>
                "consulted: found, not open access (".to_string().concat(detail.as_str()).concat(
                    ")",
                ),
            AttemptOutcome::Denied { denial } => {
                let head = "consulted: refused (".to_string().concat(name_of_reason(denial.reason));
                match &denial.attempted {
                    Some(a) => head.concat(", ").concat(a.as_str()).concat(")"),
                    None => head.concat(")"),
                }
            },
            AttemptOutcome::Failed { detail } => "consulted: failed (".to_string().concat(
                detail.as_str(),
            ).concat(")"),
            AttemptOutcome::Resolved => "consulted: resolved".to_string(),
        }
    }
}

/// One row of the trace.
#[derive(Debug, Clone, PartialEq, Eq)]
#[non_exhaustive]
pub struct SourceAttempt {
    /// Source key.
    pub source: &'static str,
    /// What happened.
    pub outcome: AttemptOutcome,
}

/// What a row holds.
pub struct AttemptModel {
    pub source: Seq<char>,
    pub outcome: OutcomeModel,
}

impl View for SourceAttempt {
    type V = AttemptModel;

    open spec fn view(&self) -> AttemptModel {
        AttemptModel { source: self.source@, outcome: self.outcome@ }
    }
}

/// What a trace holds.
pub open spec fn trace(v: Seq<SourceAttempt>) -> Seq<AttemptModel> {
    Seq::new(v.len(), |i: int| v[i]@)
}

impl SourceAttempt {
    /// Makes a row.
    #[must_use]
    pub fn new(source: &'static str, outcome: AttemptOutcome) -> (r: SourceAttempt)
        ensures
            r.source == source,
            r.outcome == outcome,
    {
        SourceAttempt { source, outcome }
    }
}

// ---------------------------------------------------------------------------
// The trace as JSON
// ---------------------------------------------------------------------------

/// A member that is there only with a value.
pub open spec fn opt_entry(name: Seq<char>, v: Option<JsonModel>) -> Seq<(Seq<char>, JsonModel)> {
    match v {
        Some(m) => seq![(name, m)],
        None => Seq::empty(),
    }
}

/// An optional text as JSON.
pub open spec fn opt_text_json(v: Option<Seq<char>>) -> Option<JsonModel> {
    match v {
        Some(s) => Some(JsonModel::Text(s)),
        None => None,
    }
}

/// An optional number as JSON.
pub open spec fn opt_number_json(v: Option<u64>) -> Option<JsonModel> {
    match v {
        Some(n) => Some(JsonModel::Number(JsonNumber::Unsigned(n))),
        None => None,
    }
}

/// A denial as JSON; fields that are not set are left out.
pub open spec fn denial_json(d: DenialModel) -> JsonModel {
    JsonModel::Object(
        seq![("reason"@, JsonModel::Text(reason_token(d.reason)))] + opt_entry(
            "source"@,
            opt_text_json(d.source),
        ) + opt_entry("attempted"@, opt_text_json(d.attempted)) + opt_entry(
            "expected"@,
            match d.expected {
                Some(v) => Some(json::texts_model(v)),
                None => None,
            },
        ) + opt_entry(
            "hop_index"@,
            match d.hop_index {
                Some(n) => Some(JsonModel::Number(JsonNumber::Unsigned(n as u64))),
                None => None,
            },
        ) + opt_entry("cap"@, opt_number_json(d.cap)) + opt_entry(
            "actual"@,
            opt_number_json(d.actual),
        ),
    )
}

/// A row as JSON: the source, the token, a detail where there is one, what a
/// user has to set or what was refused, and whether a request went out.
pub open spec fn row_json(a: AttemptModel, remediation: Option<JsonModel>) -> JsonModel {
    JsonModel::Object(
        seq![
            ("source"@, JsonModel::Text(a.source)),
            ("outcome"@, JsonModel::Text(wire_token(a.outcome))),
        ] + (match a.outcome {
            OutcomeModel::Disabled { env } => seq![
                ("detail"@, JsonModel::Text(text::join(env, " + "@))),
                ("required_env"@, json::texts_model(env)),
            ],
            OutcomeModel::Denied { denial } => seq![
                ("detail"@, JsonModel::Text(rendered(a.outcome))),
                ("denial_context"@, denial_json(denial)),
            ] + opt_entry("remediation"@, remediation),
            _ => opt_entry("detail"@, opt_text_json(free_text(a.outcome))),
        }) + seq![("consulted"@, JsonModel::Bool(consulted(a.outcome)))],
    )
}

fn put_opt_text(members: &mut Vec<(String, Json)>, name: &str, v: &Option<String>)
    ensures
        json::members_model(final(members)@) == json::members_model(old(members)@) + opt_entry(
            name@,
            opt_text_json(text::opt_view(*v)),
        ),
{
    let ghost before = json::members_model(members@);
    match v {
        Some(s) => {
            json::put(members, name, json::text_value(s.as_str()));
            assert(json::members_model(members@) =~= before + seq![
                (name@, JsonModel::Text(s@)),
            ]);
        },
        None => {
            assert(json::members_model(members@) =~= before + Seq::empty());
        },
    }
}

fn put_opt_number(members: &mut Vec<(String, Json)>, name: &str, v: Option<u64>)
    ensures
        json::members_model(final(members)@) == json::members_model(old(members)@) + opt_entry(
            name@,
            opt_number_json(v),
        ),
{
    let ghost before = json::members_model(members@);
    match v {
        Some(n) => {
            json::put(members, name, Json::Number(JsonNumber::Unsigned(n)));
            assert(json::members_model(members@) =~= before + seq![
                (name@, JsonModel::Number(JsonNumber::Unsigned(n))),
            ]);
        },
        None => {
            assert(json::members_model(members@) =~= before + Seq::empty());
        },
    }
}

/// A denial as JSON.
pub fn denial_to_value(d: &DenialContext) -> (r: Json)
    ensures
        r@ == denial_json(d@),
{
    let mut m: Vec<(String, Json)> = Vec::new();
    json::put(&mut m, "reason", json::text_value(token_of_reason(d.reason)));
    assert(json::members_model(m@) =~= seq![
        ("reason"@, JsonModel::Text(reason_token(d.reason))),
    ]);
    put_opt_text(&mut m, "source", &d.source);
    put_opt_text(&mut m, "attempted", &d.attempted);
    let ghost before = json::members_model(m@);
    match &d.expected {
        Some(v) => {
            json::put(&mut m, "expected", json::texts_value(v));
            assert(json::members_model(m@) =~= before + seq![
                ("expected"@, json::texts_model(text::views(v@))),
            ]);
        },
        None => {
            assert(json::members_model(m@) =~= before + Seq::empty());
        },
    }
    let hop = match d.hop_index {
        Some(n) => Some(n as u64),
        None => None,
    };
    put_opt_number(&mut m, "hop_index", hop);
    put_opt_number(&mut m, "cap", d.cap);
    put_opt_number(&mut m, "actual", d.actual);
    json::object(m)
}

/// A row as JSON. What can be done about a denial is handed in, where
/// something can.
pub fn attempt_to_value(a: &SourceAttempt, remediation: Option<Json>) -> (r: Json)
    ensures
        r@ == row_json(
            a@,
            match remediation {
                Some(v) => Some(v@),
                None => None,
            },
        ),
{
    let mut m: Vec<(String, Json)> = Vec::new();
    json::put(&mut m, "source", json::text_value(a.source));
    json::put(&mut m, "outcome", json::text_value(a.outcome.wire()));
    let ghost head = seq![
        ("source"@, JsonModel::Text(a@.source)),
        ("outcome"@, JsonModel::Text(wire_token(a@.outcome))),
    ];
    assert(json::members_model(m@) =~= head);
    let ghost o = a@.outcome;
    match &a.outcome {
        AttemptOutcome::Disabled { env } => {
            let names = owned_strings(*env);
            let joined = text::join_of(names.as_slice(), " + ");
            json::put(&mut m, "detail", json::text_value(joined.as_str()));
            json::put(&mut m, "required_env", json::texts_value(&names));
            assert(json::members_model(m@) =~= head + seq![
                ("detail"@, JsonModel::Text(text::join(str_views(env@), " + "@))),
                ("required_env"@, json::texts_model(str_views(env@))),
            ]);
        },
        AttemptOutcome::Denied { denial } => {
            json::put(&mut m, "detail", json::text_value(a.outcome.render().as_str()));
            json::put(&mut m, "denial_context", denial_to_value(denial));
            let ghost two = seq![
                ("detail"@, JsonModel::Text(rendered(o))),
                ("denial_context"@, denial_json(denial@)),
            ];
            assert(json::members_model(m@) =~= head + two);
            match remediation {
                Some(v) => {
                    let ghost rem = v@;
                    json::put(&mut m, "remediation", v);
                    assert(json::members_model(m@) =~= head + (two + seq![("remediation"@, rem)]));
                },
                None => {
                    assert(json::members_model(m@) =~= head + (two + opt_entry(
                        "remediation"@,
                        None,
                    )));
                },
            }
        },
        _ => {
            match a.outcome.detail() {
                Some(d) => {
                    json::put(&mut m, "detail", json::text_value(d));
                    assert(json::members_model(m@) =~= head + seq![
                        ("detail"@, JsonModel::Text(d@)),
                    ]);
                },
                None => {
                    assert(json::members_model(m@) =~= head + opt_entry("detail"@, None));
                },
            }
        },
    }
    let ghost body = json::members_model(m@);
    json::put(&mut m, "consulted", Json::Bool(a.outcome.was_consulted()));
    assert(json::members_model(m@) =~= body + seq![("consulted"@, JsonModel::Bool(consulted(o)))]);
    json::object(m)
}

/// What can be done about the row at that place.
pub open spec fn remediation_at(v: Seq<Option<Json>>, i: int) -> Option<JsonModel> {
    if 0 <= i < v.len() {
        match v[i] {
            Some(j) => Some(j@),
            None => None,
        }
    } else {
        None
    }
}

/// The trace as JSON, one object per row. `remediations` holds, row by row,
/// what can be done about a denial.
#[must_use]
pub fn attempts_to_value(attempts: &[SourceAttempt], remediations: Vec<Option<Json>>) -> (r: Json)
    ensures
        r@ == JsonModel::Array(
            Seq::new(
                attempts@.len(),
                |i: int| row_json(attempts@[i]@, remediation_at(remediations@, i)),
            ),
        ),
{
    let ghost all = remediations@;
    let mut rest = remediations;
    let mut rows: Vec<Json> = Vec::new();
    let mut i: usize = 0;
    assert(all.skip(0) =~= all);
    while i < attempts.len()
        invariant
            i <= attempts.len(),
            rows@.len() == i,
            rest@ == all.skip(
                if i < all.len() {
                    i as int
                } else {
                    all.len() as int
                },
            ),
            forall|j: int|
                0 <= j < i ==> (#[trigger] rows@[j])@ == row_json(
                    attempts@[j]@,
                    remediation_at(all, j),
                ),
        decreases attempts.len() - i,
    {
        let rem = if rest.len() > 0 {
            rest.remove(0)
        } else {
            None
        };
        proof {
            if i < all.len() {
                assert(rem == all[i as int]);
                assert(rest@ =~= all.skip(i + 1));
            }
        }
        rows.push(attempt_to_value(&attempts[i], rem));
        i += 1;
    }
    let r = json::array(rows);
    assert(r@->Array_0 =~= Seq::new(
        attempts@.len(),
        |i: int| row_json(attempts@[i]@, remediation_at(all, i)),
    ));
    r
}

// ---------------------------------------------------------------------------
// The trace as text
// ---------------------------------------------------------------------------

/// `s`, filled up with spaces to the width.
pub open spec fn padded(s: Seq<char>, width: nat) -> Seq<char>
    decreases width - s.len(),
{
    if s.len() >= width {
        s
    } else {
        padded(s.push(' '), width)
    }
}

fn padded_of(s: &str, width: usize) -> (r: String)
    ensures
        r@ == padded(s@, width as nat),
{
    let mut v = text::chars_of(s);
    while v.len() < width
        invariant
            padded(v@, width as nat) == padded(s@, width as nat),
        decreases width - v.len(),
    {
        v.push(' ');
    }
    text::string_of(v.as_slice())
}

/// A row as a line.
pub open spec fn row_line(a: AttemptModel) -> Seq<char> {
    "  "@ + padded(a.source, 12) + " "@ + rendered(a.outcome)
}

/// A trace as lines, in the order in which the sources came.
pub open spec fn trace_text(v: Seq<AttemptModel>) -> Seq<char> {
    text::join(Seq::new(v.len(), |i: int| row_line(v[i])), "\n"@)
}

/// The trace as lines, in the order in which the sources came.
#[must_use]
pub fn render_attempts(attempts: &[SourceAttempt]) -> (r: String)
    ensures
        r@ == trace_text(trace(attempts@)),
{
    let mut lines: Vec<String> = Vec::new();
    let mut i: usize = 0;
    while i < attempts.len()
        invariant
            i <= attempts.len(),
            lines@.len() == i,
            forall|j: int| 0 <= j < i ==> (#[trigger] lines@[j])@ == row_line(attempts@[j]@),
        decreases attempts.len() - i,
    {
        lines.push(
            "  ".to_string().concat(padded_of(attempts[i].source, 12).as_str()).concat(" ").concat(
                attempts[i].outcome.render().as_str(),
            ),
        );
        i += 1;
    }
    assert(text::views(lines@) =~= Seq::new(
        trace(attempts@).len(),
        |i: int| row_line(trace(attempts@)[i]),
    ));
    text::join_of(lines.as_slice(), "\n")
}

/// Whether there is a trace and no source of it was consulted.
pub open spec fn untouched(v: Seq<AttemptModel>) -> bool {
    v.len() > 0 && forall|i: int| 0 <= i < v.len() ==> !consulted((#[trigger] v[i]).outcome)
}

/// Whether no source of the trace was reached.
#[must_use]
pub fn nothing_was_consulted(attempts: &[SourceAttempt]) -> (r: bool)
    ensures
        r == untouched(trace(attempts@)),
{
    let mut i: usize = 0;
    while i < attempts.len()
        invariant
            i <= attempts.len(),
            forall|j: int| 0 <= j < i ==> !consulted((#[trigger] attempts@[j]).outcome@),
        decreases attempts.len() - i,
    {
        if attempts[i].outcome.was_consulted() {
            assert(consulted(trace(attempts@)[i as int].outcome));
            return false;
        }
        i += 1;
    }
    assert forall|j: int| 0 <= j < trace(attempts@).len() implies !consulted(
        (#[trigger] trace(attempts@)[j]).outcome,
    ) by {
        assert(!consulted(attempts@[j].outcome@));
    }
    attempts.len() > 0
}

// ---------------------------------------------------------------------------
// Classification
// ---------------------------------------------------------------------------

/// Whether a hint tells of a record that is not open.
pub open spec fn access_refusal(hint: Seq<char>) -> bool {
    text::contains_text(hint, "not open access"@) || text::contains_text(hint, "openAccess"@)
}

/// Whether a hint tells of a record that is not open.
pub fn is_access_refusal(hint: &str) -> (r: bool)
    ensures
        r == access_refusal(hint@),
{
    text::has_text(hint, "not open access") || text::has_text(hint, "openAccess")
}

/// The outcome that an error stands for. A source that is not granted was
/// never asked, so it is no denial; `shown` is the error's own text.
pub open spec fn classified(e: FetchError, shown: Seq<char>) -> OutcomeModel {
    match e {
        FetchError::NotFound { .. } => OutcomeModel::NoRecord,
        FetchError::SourceSchema { hint } => if access_refusal(hint@) {
            OutcomeModel::NotOpenAccess { detail: hint@ }
        } else {
            OutcomeModel::Failed { detail: shown }
        },
        _ => match source::fetch_denial(e) {
            Some(d) => if d.reason == DenialReason::CapabilityNotGranted {
                OutcomeModel::Failed { detail: shown }
            } else {
                OutcomeModel::Denied { denial: d }
            },
            None => OutcomeModel::Failed { detail: shown },
        },
    }
}

/// The outcome that an error stands for; `shown` is the error's own text.
pub fn classify_attempt(e: &FetchError, shown: &str) -> (r: AttemptOutcome)
    ensures
        r@ == classified(*e, shown@),
{
    match e {
        FetchError::NotFound { .. } => return AttemptOutcome::NoRecord,
        FetchError::SourceSchema { hint } => {
            if is_access_refusal(hint.as_str()) {
                return AttemptOutcome::NotOpenAccess { detail: hint.clone() };
            }
            return AttemptOutcome::Failed { detail: shown.to_string() };
        },
        _ => {},
    }
    match e.denial_context() {
        Some(denial) => {
            if denial.reason == DenialReason::CapabilityNotGranted {
                AttemptOutcome::Failed { detail: shown.to_string() }
            } else {
                AttemptOutcome::Denied { denial }
            }
        },
        None => AttemptOutcome::Failed { detail: shown.to_string() },
    }
}

// ---------------------------------------------------------------------------
// Laws
// ---------------------------------------------------------------------------

/// The token and the line of an outcome both say whether the source was asked,
/// and never disagree.
pub proof fn law_tokens_and_lines_tell_whether_asked(o: OutcomeModel)
    ensures
        consulted(o) <==> "consulted_"@.is_prefix_of(wire_token(o)),
        !consulted(o) <==> "not_consulted_"@.is_prefix_of(wire_token(o)),
        consulted(o) <==> "consulted: "@.is_prefix_of(rendered(o)),
        !consulted(o) <==> "not consulted ("@.is_prefix_of(rendered(o)),
{
    lemma_tokens(o);
    lemma_lines(o);
}

proof fn lemma_tokens(o: OutcomeModel)
    ensures
        consulted(o) ==> "consulted_"@.is_prefix_of(wire_token(o)) && wire_token(o)[0] == 'c',
        !consulted(o) ==> "not_consulted_"@.is_prefix_of(wire_token(o)) && wire_token(o)[0] == 'n',
        "consulted_"@.len() > 0 && "consulted_"@[0] == 'c',
        "not_consulted_"@.len() > 0 && "not_consulted_"@[0] == 'n',
{
    reveal_strlit("consulted_");
    reveal_strlit("not_consulted_");
    reveal_strlit("not_consulted_disabled");
    reveal_strlit("not_consulted_not_applicable");
    reveal_strlit("not_consulted_wrong_publisher");
    reveal_strlit("not_consulted_not_needed");
    reveal_strlit("consulted_no_record");
    reveal_strlit("consulted_not_open_access");
    reveal_strlit("consulted_denied");
    reveal_strlit("consulted_failed");
    reveal_strlit("consulted_resolved");
}

proof fn lemma_lines(o: OutcomeModel)
    ensures
        consulted(o) ==> "consulted: "@.is_prefix_of(rendered(o)) && rendered(o)[0] == 'c',
        !consulted(o) ==> "not consulted ("@.is_prefix_of(rendered(o)) && rendered(o)[0] == 'n',
        "consulted: "@.len() > 0 && "consulted: "@[0] == 'c',
        "not consulted ("@.len() > 0 && "not consulted ("@[0] == 'n',
{
    reveal_strlit("consulted: ");
    reveal_strlit("not consulted (");
    reveal_strlit("not consulted (set ");
    reveal_strlit("not consulted (cannot serve this ref kind)");
    reveal_strlit("not consulted (an earlier source answered)");
    reveal_strlit("consulted: no record");
    reveal_strlit("consulted: found, not open access (");
    reveal_strlit("consulted: refused (");
    reveal_strlit("consulted: failed (");
    reveal_strlit("consulted: resolved");
}

/// What an error is classified as was always asked: no error turns into a
/// source that was skipped, and a grant that is missing is no refusal.
pub proof fn law_errors_are_consultations(e: FetchError, shown: Seq<char>)
    ensures
        consulted(classified(e, shown)),
        !(classified(e, shown) is Resolved),
        e is NotEligible ==> classified(e, shown) is Failed,
{
}

/// What became of a source that failed: nothing was found, what was found is not
/// open, the request was refused, or it failed; each tells what is known of it.
pub proof fn law_errors_are_told_by_their_kind(e: FetchError, shown: Seq<char>)
    ensures
        e is NotFound ==> classified(e, shown) is NoRecord,
        e matches FetchError::SourceSchema { hint } ==> {
            let closed = (exists|i: int|
                0 <= i <= hint@.len() - 15 && #[trigger] hint@.subrange(i, i + 15)
                    == "not open access"@) || (exists|i: int|
                0 <= i <= hint@.len() - 10 && #[trigger] hint@.subrange(i, i + 10)
                    == "openAccess"@);
            &&& closed ==> classified(e, shown) == (OutcomeModel::NotOpenAccess { detail: hint@ })
            &&& !closed ==> classified(e, shown) == (OutcomeModel::Failed { detail: shown })
        },
        e matches FetchError::Http(h) ==> match crate::http::error::http_denial(h@) {
            Some(d) => d.reason != DenialReason::CapabilityNotGranted ==> classified(e, shown) == (
            OutcomeModel::Denied { denial: d }),
            None => classified(e, shown) == (OutcomeModel::Failed { detail: shown }),
        },
        !(e is NotFound || e is SourceSchema || e is Http) ==> classified(e, shown) == (
        OutcomeModel::Failed { detail: shown }),
{
    if let FetchError::SourceSchema { hint } = e {
        reveal_strlit("not open access");
        reveal_strlit("openAccess");
        let h = hint@;
        if text::contains_text(h, "not open access"@) {
            let i = choose|i: int| text::text_at(h, "not open access"@, i);
            assert(h.subrange(i, i + 15) == "not open access"@);
        }
        if text::contains_text(h, "openAccess"@) {
            let i = choose|i: int| text::text_at(h, "openAccess"@, i);
            assert(h.subrange(i, i + 10) == "openAccess"@);
        }
        if exists|i: int|
            0 <= i <= h.len() - 15 && #[trigger] h.subrange(i, i + 15) == "not open access"@ {
            let i = choose|i: int|
                0 <= i <= h.len() - 15 && #[trigger] h.subrange(i, i + 15) == "not open access"@;
            assert(text::text_at(h, "not open access"@, i));
        }
        if exists|i: int| 0 <= i <= h.len() - 10 && #[trigger] h.subrange(i, i + 10)
            == "openAccess"@ {
            let i = choose|i: int|
                0 <= i <= h.len() - 10 && #[trigger] h.subrange(i, i + 10) == "openAccess"@;
            assert(text::text_at(h, "openAccess"@, i));
        }
    }
}

proof fn lemma_padded(s: Seq<char>, width: nat)
    ensures
        s.len() >= width ==> padded(s, width) == s,
        s.len() < width ==> padded(s, width) == s + Seq::new(
            (width - s.len()) as nat,
            |i: int| ' ',
        ),
    decreases width - s.len(),
{
    if s.len() < width {
        lemma_padded(s.push(' '), width);
        assert(padded(s, width) =~= s + Seq::new((width - s.len()) as nat, |i: int| ' '));
    }
}

/// The line of a source has its name in a column of twelve, and what became of it
/// behind that.
pub proof fn law_lines_have_two_columns(a: AttemptModel)
    ensures
        a.source.len() >= 12 ==> row_line(a) == "  "@ + a.source + " "@ + rendered(a.outcome),
        a.source.len() < 12 ==> row_line(a) == "  "@ + (a.source + Seq::new(
            (12 - a.source.len()) as nat,
            |i: int| ' ',
        )) + " "@ + rendered(a.outcome),
{
    lemma_padded(a.source, 12);
}

/// Every source has a line of the trace, in the order in which they came up.
pub proof fn law_every_source_has_a_line(v: Seq<AttemptModel>, a: AttemptModel)
    ensures
        trace_text(seq![a]) == row_line(a),
        v.len() > 0 ==> trace_text(v.push(a)) == trace_text(v) + "\n"@ + row_line(a),
        trace_text(Seq::empty()) == Seq::<char>::empty(),
{
    let w = v.push(a);
    let lines = Seq::new(v.len(), |i: int| row_line(v[i]));
    let more = Seq::new(w.len(), |i: int| row_line(w[i]));
    assert(more.drop_last() =~= lines);
    assert(more.last() == row_line(a));
}

/// A trace is untouched where it has rows and no source of them was asked; one
/// row with a source that was asked is enough to touch it.
pub proof fn law_one_question_is_enough(v: Seq<AttemptModel>, a: AttemptModel)
    ensures
        !untouched(Seq::empty()),
        a.outcome is Disabled || a.outcome is NotApplicable || a.outcome is WrongPublisher
            || a.outcome is NotNeeded ==> (untouched(v.push(a)) <==> v.len() == 0 || untouched(v)),
        a.outcome is NoRecord || a.outcome is NotOpenAccess || a.outcome is Denied
            || a.outcome is Failed || a.outcome is Resolved ==> !untouched(v.push(a)),
{
    let w = v.push(a);
    assert(w[w.len() - 1] == a);
    if untouched(v) && !consulted(a.outcome) {
        assert forall|i: int| 0 <= i < w.len() implies !consulted((#[trigger] w[i]).outcome) by {
            if i < v.len() {
                assert(w[i] == v[i]);
            }
        }
    }
    if untouched(w) {
        assert forall|i: int| 0 <= i < v.len() implies !consulted((#[trigger] v[i]).outcome) by {
            assert(w[i] == v[i]);
        }
    }
}

/// What is said of a source names what it needs, what it answered and what it was
/// refused for.
pub proof fn law_lines_tell_what_is_known(
    env: Seq<Seq<char>>,
    detail: Seq<char>,
    denial: DenialModel,
    host: Seq<char>,
)
    ensures
        rendered(OutcomeModel::Disabled { env }) == "not consulted (set "@ + text::join(
            env,
            " + "@,
        ) + " to enable)"@,
        rendered(OutcomeModel::WrongPublisher { detail }) == "not consulted ("@ + detail + ")"@,
        rendered(OutcomeModel::NotOpenAccess { detail })
            == "consulted: found, not open access ("@ + detail + ")"@,
        rendered(OutcomeModel::Failed { detail }) == "consulted: failed ("@ + detail + ")"@,
        denial.attempted is None ==> rendered(OutcomeModel::Denied { denial })
            == "consulted: refused ("@ + reason_name(denial.reason) + ")"@,
        denial.attempted == Some(host) ==> rendered(OutcomeModel::Denied { denial })
            == "consulted: refused ("@ + reason_name(denial.reason) + ", "@ + host + ")"@,
        free_text(OutcomeModel::WrongPublisher { detail }) == Some(detail),
        free_text(OutcomeModel::NotOpenAccess { detail }) == Some(detail),
        free_text(OutcomeModel::Failed { detail }) == Some(detail),
        free_text(OutcomeModel::Denied { denial }) is None,
        free_text(OutcomeModel::Disabled { env }) is None,
        free_text(OutcomeModel::Resolved) is None,
        free_text(OutcomeModel::NoRecord) is None,
        free_text(OutcomeModel::NotNeeded) is None,
        free_text(OutcomeModel::NotApplicable) is None,
{
}

/// No two reasons share a name or a token.
pub proof fn law_reasons_are_told_apart(r: DenialReason, s: DenialReason)
    ensures
        reason_name(r) == reason_name(s) ==> r == s,
        reason_token(r) == reason_token(s) ==> r == s,
{
    reveal_strlit("RedirectNotInAllowlist");
    reveal_strlit("InsecureScheme");
    reveal_strlit("HostInBlockList");
    reveal_strlit("SizeCapExceeded");
    reveal_strlit("SchemaDrift");
    reveal_strlit("CapabilityNotGranted");
    reveal_strlit("RateLimitWindow");
    reveal_strlit("SsrfPrivateAddress");
    reveal_strlit("ContentTypeMismatch");
    reveal_strlit("redirect_not_in_allowlist");
    reveal_strlit("insecure_scheme");
    reveal_strlit("host_in_block_list");
    reveal_strlit("size_cap_exceeded");
    reveal_strlit("schema_drift");
    reveal_strlit("capability_not_granted");
    reveal_strlit("rate_limit_window");
    reveal_strlit("ssrf_private_address");
    reveal_strlit("content_type_mismatch");
    assert(reason_name(r).len() == reason_name(s).len() && reason_name(r)[0] == reason_name(s)[0]
        && r != s ==> false);
    assert(reason_token(r).len() == reason_token(s).len() && reason_token(r)[0] == reason_token(
        s,
    )[0] && r != s ==> false);
}

/// The row of a source holds its name first, what became of it second, and
/// whether it was asked last; a source that must be switched on names every
/// setting, and a refusal is told in full, with its remedy where there is one.
pub proof fn law_rows_tell_what_became_of_a_source(
    a: AttemptModel,
    remediation: Option<JsonModel>,
)
    ensures
        row_json(a, remediation) matches JsonModel::Object(m) && {
            &&& m.len() >= 3
            &&& m[0] == ("source"@, JsonModel::Text(a.source))
            &&& m[1] == ("outcome"@, JsonModel::Text(wire_token(a.outcome)))
            &&& m.last() == (
                "consulted"@,
                JsonModel::Bool(
                    a.outcome is NoRecord || a.outcome is NotOpenAccess || a.outcome is Denied
                        || a.outcome is Failed || a.outcome is Resolved,
                ),
            )
            &&& a.outcome matches OutcomeModel::Disabled { env } ==> m.len() == 5 && m[2] == (
                "detail"@,
                JsonModel::Text(text::join(env, " + "@)),
            ) && m[3] == (
                "required_env"@,
                JsonModel::Array(Seq::new(env.len(), |i: int| JsonModel::Text(env[i]))),
            )
            &&& a.outcome matches OutcomeModel::Denied { denial } ==> {
                &&& m[2] == ("detail"@, JsonModel::Text(rendered(a.outcome)))
                &&& m[3] == ("denial_context"@, denial_json(denial))
                &&& remediation is None ==> m.len() == 5
                &&& remediation matches Some(r) ==> m.len() == 6 && m[4] == ("remediation"@, r)
            }
            &&& a.outcome matches OutcomeModel::WrongPublisher { detail } ==> m.len() == 4 && m[2]
                == ("detail"@, JsonModel::Text(detail))
            &&& a.outcome matches OutcomeModel::NotOpenAccess { detail } ==> m.len() == 4 && m[2]
                == ("detail"@, JsonModel::Text(detail))
            &&& a.outcome matches OutcomeModel::Failed { detail } ==> m.len() == 4 && m[2] == (
                "detail"@,
                JsonModel::Text(detail),
            )
            &&& a.outcome is NotApplicable || a.outcome is NotNeeded || a.outcome is NoRecord
                || a.outcome is Resolved ==> m.len() == 3
        },
{
    if let OutcomeModel::Disabled { env } = a.outcome {
        assert(json::texts_model(env) == JsonModel::Array(
            Seq::new(env.len(), |i: int| JsonModel::Text(env[i])),
        ));
    }
}

/// A refusal is told with everything that is known of it: a member is there
/// where its value is, and has that value.
pub proof fn law_refusals_are_told_in_full(d: DenialModel)
    ensures
        denial_json(d) matches JsonModel::Object(m) && {
            &&& m[0] == ("reason"@, JsonModel::Text(reason_token(d.reason)))
            &&& m.len() == 1 + (if d.source is Some {
                1int
            } else {
                0
            }) + (if d.attempted is Some {
                1int
            } else {
                0
            }) + (if d.expected is Some {
                1int
            } else {
                0
            }) + (if d.hop_index is Some {
                1int
            } else {
                0
            }) + (if d.cap is Some {
                1int
            } else {
                0
            }) + (if d.actual is Some {
                1int
            } else {
                0
            })
            &&& d.source matches Some(s) ==> m.contains(("source"@, JsonModel::Text(s)))
            &&& d.attempted matches Some(s) ==> m.contains(("attempted"@, JsonModel::Text(s)))
            &&& d.expected matches Some(v) ==> m.contains(("expected"@, json::texts_model(v)))
            &&& d.hop_index matches Some(n) ==> m.contains(
                ("hop_index"@, JsonModel::Number(JsonNumber::Unsigned(n as u64))),
            )
            &&& d.cap matches Some(n) ==> m.contains(
                ("cap"@, JsonModel::Number(JsonNumber::Unsigned(n))),
            )
            &&& d.actual matches Some(n) ==> m.contains(
                ("actual"@, JsonModel::Number(JsonNumber::Unsigned(n))),
            )
        },
{
    let m = denial_json(d)->Object_0;
    let i1 = 1int;
    let i2 = i1 + if d.source is Some {
        1int
    } else {
        0
    };
    let i3 = i2 + if d.attempted is Some {
        1int
    } else {
        0
    };
    let i4 = i3 + if d.expected is Some {
        1int
    } else {
        0
    };
    let i5 = i4 + if d.hop_index is Some {
        1int
    } else {
        0
    };
    let i6 = i5 + if d.cap is Some {
        1int
    } else {
        0
    };
    assert(d.source matches Some(s) ==> m[i1] == ("source"@, JsonModel::Text(s)));
    assert(d.attempted matches Some(s) ==> m[i2] == ("attempted"@, JsonModel::Text(s)));
    assert(d.expected matches Some(v) ==> m[i3] == ("expected"@, json::texts_model(v)));
    assert(d.hop_index matches Some(n) ==> m[i4] == (
        "hop_index"@,
        JsonModel::Number(JsonNumber::Unsigned(n as u64)),
    ));
    assert(d.cap matches Some(n) ==> m[i5] == (
        "cap"@,
        JsonModel::Number(JsonNumber::Unsigned(n)),
    ));
    assert(d.actual matches Some(n) ==> m[i6] == (
        "actual"@,
        JsonModel::Number(JsonNumber::Unsigned(n)),
    ));
}

} // verus!
