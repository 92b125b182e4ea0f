//! The rows that the provenance log gets.

use crate::canonical;
use crate::canonical::CanonicalRef;
use crate::canonical::SourceType;
use crate::digest;
use crate::errors;
use crate::errors::ErrorCode;
use crate::orchestrator::metadata::Metadata;
use crate::orchestrator::metadata::MetadataModel;
use crate::refs::ArxivId;
use crate::refs::Doi;
use crate::text;
use vstd::prelude::*;

verus! {

/// What a row tells of.
#[derive(Debug, Clone, Copy, PartialEq, Eq, Structural)]
pub enum LogEvent {
    /// A request.
    Fetch,
    /// A write to the store.
    StoreWrite,
}

/// The grant under which it was done.
#[derive(Debug, Clone, Copy, PartialEq, Eq, Structural)]
pub enum Capability {
    /// Open access.
    Oa,
    /// Metadata.
    Metadata,
}

/// A row of the provenance log.
#[derive(Debug, Clone, PartialEq, Eq)]
pub struct AuditRow {
    /// What it tells of.
    pub event: LogEvent,
    /// Whether it succeeded.
    pub succeeded: bool,
    /// The grant.
    pub capability: Capability,
    /// The reference.
    pub reference: Option<String>,
    /// The source.
    pub source: Option<String>,
    /// Code of the error.
    pub error_code: Option<String>,
    /// Size of what was fetched or stored.
    pub size_bytes: Option<u64>,
    /// License.
    pub license: Option<String>,
    /// Path below the store.
    pub store_path: Option<String>,
    /// Digest of the audit identity.
    pub canonical_digest: Option<String>,
}

/// What a row holds.
pub struct RowModel {
    pub event: LogEvent,
    pub succeeded: bool,
    pub capability: Capability,
    pub reference: Option<Seq<char>>,
    pub source: Option<Seq<char>>,
    pub error_code: Option<Seq<char>>,
    pub size_bytes: Option<u64>,
    pub license: Option<Seq<char>>,
    pub store_path: Option<Seq<char>>,
    pub canonical_digest: Option<Seq<char>>,
}

impl View for AuditRow {
    type V = RowModel;

    open spec fn view(&self) -> RowModel {
        RowModel {
            event: self.event,
            succeeded: self.succeeded,
            capability: self.capability,
            reference: text::opt_view(self.reference),
            source: text::opt_view(self.source),
            error_code: text::opt_view(self.error_code),
            size_bytes: self.size_bytes,
            license: text::opt_view(self.license),
            store_path: text::opt_view(self.store_path),
            canonical_digest: text::opt_view(self.canonical_digest),
        }
    }
}

/// The digest of an identity without a version, in hexadecimal.
pub open spec fn identity_digest(class: SourceType, id: Seq<char>, resolver: Seq<char>) -> Seq<
    char,
> {
    digest::hex_text(digest::sha256(canonical::digest_input(class, id, resolver, None))@)
}

/// The digest of an identity without a version, in hexadecimal.
pub fn identity_digest_of(class: SourceType, id: &str, resolver: &str) -> (r: String)
    ensures
        r@ == identity_digest(class, id@, resolver@),
{
    CanonicalRef::new(class, id, resolver, None).digest_hex()
}

/// The row of an attempt to fetch an open copy: its size, or none where the
/// attempt failed.
pub open spec fn oa_row(doi: Seq<char>, size: Option<u64>) -> RowModel {
    RowModel {
        event: LogEvent::Fetch,
        succeeded: size is Some,
        capability: Capability::Oa,
        reference: Some(doi),
        source: Some("oa-publisher"@),
        error_code: if size is Some {
            None
        } else {
            Some(errors::code_token(ErrorCode::NetworkError))
        },
        size_bytes: size,
        license: None,
        store_path: None,
        canonical_digest: Some(identity_digest(SourceType::Doi, doi, "oa-publisher"@)),
    }
}

/// The row of an attempt to fetch an open copy.
pub fn oa_fetch_row(doi: &Doi, size: Option<u64>) -> (r: AuditRow)
    ensures
        r@ == oa_row(doi@, size),
{
    AuditRow {
        event: LogEvent::Fetch,
        succeeded: size.is_some(),
        capability: Capability::Oa,
        reference: Some(doi.as_str().to_string()),
        source: Some("oa-publisher".to_string()),
        error_code: if size.is_some() {
            None
        } else {
            Some(ErrorCode::NetworkError.as_wire().to_string())
        },
        size_bytes: size,
        license: None,
        store_path: None,
        canonical_digest: Some(
            identity_digest_of(SourceType::Doi, doi.as_str(), "oa-publisher"),
        ),
    }
}

/// The row of a request for a Work of a citation graph: the size of its
/// record, or none where the request failed.
pub open spec fn graph_row(work_id: Seq<char>, size: Option<u64>) -> RowModel {
    RowModel {
        event: LogEvent::Fetch,
        succeeded: size is Some,
        capability: Capability::Metadata,
        reference: Some(work_id),
        source: Some("openalex"@),
        error_code: None,
        size_bytes: size,
        license: None,
        store_path: None,
        canonical_digest: None,
    }
}

/// The row of a request for a Work of a citation graph.
pub fn graph_fetch_row(work_id: &str, size: Option<u64>) -> (r: AuditRow)
    ensures
        r@ == graph_row(work_id@, size),
{
    AuditRow {
        event: LogEvent::Fetch,
        succeeded: size.is_some(),
        capability: Capability::Metadata,
        reference: Some(work_id.to_string()),
        source: Some("openalex".to_string()),
        error_code: None,
        size_bytes: size,
        license: None,
        store_path: None,
        canonical_digest: None,
    }
}

/// The row of a search, or of the lookup of a name: neither has a reference.
pub open spec fn search_row_model(size: u64) -> RowModel {
    RowModel {
        event: LogEvent::Fetch,
        succeeded: true,
        capability: Capability::Metadata,
        reference: None,
        source: Some("openalex"@),
        error_code: None,
        size_bytes: Some(size),
        license: None,
        store_path: None,
        canonical_digest: None,
    }
}

/// The row of a search, or of the lookup of a name.
pub fn search_row(size: u64) -> (r: AuditRow)
    ensures
        r@ == search_row_model(size),
{
    AuditRow {
        event: LogEvent::Fetch,
        succeeded: true,
        capability: Capability::Metadata,
        reference: None,
        source: Some("openalex".to_string()),
        error_code: None,
        size_bytes: Some(size),
        license: None,
        store_path: None,
        canonical_digest: None,
    }
}

/// What a submission's source was asked for: its text, or its files.
pub open spec fn submission_label(files: bool) -> Seq<char> {
    if files {
        "arxiv-src-bundle"@
    } else {
        "arxiv-src"@
    }
}

/// The row of a request for the source of a submission.
pub open spec fn submission_row_model(id: Seq<char>, files: bool, size: u64) -> RowModel {
    RowModel {
        event: LogEvent::Fetch,
        succeeded: true,
        capability: Capability::Oa,
        reference: Some(id),
        source: Some(submission_label(files)),
        error_code: None,
        size_bytes: Some(size),
        license: Some("arxiv-default"@),
        store_path: None,
        canonical_digest: Some(identity_digest(SourceType::Arxiv, id, submission_label(files))),
    }
}

/// The row of a request for the source of a submission.
pub fn submission_row(id: &ArxivId, files: bool, size: u64) -> (r: AuditRow)
    ensures
        r@ == submission_row_model(id@, files, size),
{
    let label = if files {
        "arxiv-src-bundle"
    } else {
        "arxiv-src"
    };
    AuditRow {
        event: LogEvent::Fetch,
        succeeded: true,
        capability: Capability::Oa,
        reference: Some(id.as_str().to_string()),
        source: Some(label.to_string()),
        error_code: None,
        size_bytes: Some(size),
        license: Some("arxiv-default".to_string()),
        store_path: None,
        canonical_digest: Some(identity_digest_of(SourceType::Arxiv, id.as_str(), label)),
    }
}

/// The reference of stored metadata: its DOI, else its arXiv id.
pub open spec fn stored_reference(m: MetadataModel) -> Option<(SourceType, Seq<char>)> {
    match m.doi {
        Some(d) => Some((SourceType::Doi, d)),
        None => match m.arxiv_id {
            Some(a) => Some((SourceType::Arxiv, a)),
            None => None,
        },
    }
}

/// The row of a write to the store. One that failed gives a code and neither
/// size nor license.
pub open spec fn store_row(
    m: MetadataModel,
    key: Seq<char>,
    with_pdf: bool,
    written: bool,
) -> RowModel {
    let reference = stored_reference(m);
    let source = match m.doiget {
        Some(x) => Some(x.source),
        None => None,
    };
    RowModel {
        event: LogEvent::StoreWrite,
        succeeded: written,
        capability: Capability::Oa,
        reference: match reference {
            Some((_, id)) => Some(id),
            None => None,
        },
        source,
        error_code: if written {
            None
        } else {
            Some(errors::code_token(ErrorCode::StoreError))
        },
        size_bytes: if written {
            Some(
                match m.doiget {
                    Some(x) => x.size_bytes,
                    None => 0,
                },
            )
        } else {
            None
        },
        license: if written {
            match m.doiget {
                Some(x) => Some(x.license),
                None => None,
            }
        } else {
            None
        },
        store_path: Some(
            if with_pdf {
                key + ".pdf"@
            } else {
                ".metadata/"@ + key + ".toml"@
            },
        ),
        canonical_digest: match (reference, source) {
            (Some((class, id)), Some(s)) => Some(identity_digest(class, id, s)),
            _ => None,
        },
    }
}

/// The row of a write to the store.
pub fn store_write_row(metadata: &Metadata, key: &str, with_pdf: bool, written: bool) -> (r:
    AuditRow)
    ensures
        r@ == store_row(metadata@, key@, with_pdf, written),
{
    let reference: Option<(SourceType, &str)> = match &metadata.doi {
        Some(d) => Some((SourceType::Doi, d.as_str())),
        None => match &metadata.arxiv_id {
            Some(a) => Some((SourceType::Arxiv, a.as_str())),
            None => None,
        },
    };
    let store_path = if with_pdf {
        key.to_string().concat(".pdf")
    } else {
        ".metadata/".to_string().concat(key).concat(".toml")
    };
    let (source, size, license) = match &metadata.doiget {
        Some(x) => (Some(x.source.clone()), x.size_bytes, Some(x.license.clone())),
        None => (None, 0, None),
    };
    let canonical_digest = match (&reference, &source) {
        (Some((class, id)), Some(s)) => Some(identity_digest_of(*class, *id, s.as_str())),
        _ => None,
    };
    AuditRow {
        event: LogEvent::StoreWrite,
        succeeded: written,
        capability: Capability::Oa,
        reference: match reference {
            Some((_, id)) => Some(id.to_string()),
            None => None,
        },
        source,
        error_code: if written {
            None
        } else {
            Some(ErrorCode::StoreError.as_wire().to_string())
        },
        size_bytes: if written {
            Some(size)
        } else {
            None
        },
        license: if written {
            license
        } else {
            None
        },
        store_path: Some(store_path),
        canonical_digest,
    }
}

/// A row of a fetch tells what was asked, of whom, and how much came: it
/// succeeded where something came, and an open copy that did not come is a
/// network error.
pub proof fn law_fetch_rows_tell_what_came(name: Seq<char>, size: Option<u64>, n: u64)
    ensures
        ({
            let oa = oa_row(name, size);
            &&& oa.event == LogEvent::Fetch && oa.capability == Capability::Oa
            &&& oa.succeeded <==> size is Some
            &&& oa.size_bytes == size
            &&& oa.reference == Some(name) && oa.source == Some("oa-publisher"@)
            &&& size is Some ==> oa.error_code is None
            &&& size is None ==> oa.error_code == Some("NETWORK_ERROR"@)
            &&& oa.license is None && oa.store_path is None
            &&& oa.canonical_digest == Some(
                identity_digest(SourceType::Doi, name, "oa-publisher"@),
            )
        }),
        ({
            let graph = graph_row(name, size);
            &&& graph.event == LogEvent::Fetch && graph.capability == Capability::Metadata
            &&& graph.succeeded <==> size is Some
            &&& graph.size_bytes == size
            &&& graph.reference == Some(name) && graph.source == Some("openalex"@)
            &&& graph.error_code is None && graph.license is None && graph.store_path is None
                && graph.canonical_digest is None
        }),
        ({
            let search = search_row_model(n);
            &&& search.event == LogEvent::Fetch && search.capability == Capability::Metadata
            &&& search.succeeded && search.size_bytes == Some(n)
            &&& search.reference is None && search.source == Some("openalex"@)
            &&& search.error_code is None && search.license is None && search.store_path is None
                && search.canonical_digest is None
        }),
{
}

/// A row of a submission tells whether its text or its files were asked for, and
/// how much came.
pub proof fn law_submission_rows_tell_what_came(id: Seq<char>, files: bool, size: u64)
    ensures
        ({
            let row = submission_row_model(id, files, size);
            let label = if files {
                "arxiv-src-bundle"@
            } else {
                "arxiv-src"@
            };
            &&& row.event == LogEvent::Fetch && row.succeeded && row.capability == Capability::Oa
            &&& row.reference == Some(id) && row.source == Some(label)
            &&& row.size_bytes == Some(size) && row.license == Some("arxiv-default"@)
            &&& row.error_code is None && row.store_path is None
            &&& row.canonical_digest == Some(identity_digest(SourceType::Arxiv, id, label))
        }),
{
}

/// A row of a write tells what was written, under its DOI first and its arXiv
/// identifier else, and where; one that failed is a store error, and tells
/// neither size nor licence.
pub proof fn law_store_rows_tell_what_was_written(
    m: MetadataModel,
    key: Seq<char>,
    with_pdf: bool,
    written: bool,
)
    ensures
        ({
            let row = store_row(m, key, with_pdf, written);
            &&& row.event == LogEvent::StoreWrite && row.capability == Capability::Oa
            &&& row.succeeded == written
            &&& written ==> row.error_code is None
            &&& !written ==> row.error_code == Some("STORE_ERROR"@) && row.size_bytes is None
                && row.license is None
            &&& with_pdf ==> row.store_path == Some(key + ".pdf"@)
            &&& !with_pdf ==> row.store_path == Some(".metadata/"@ + key + ".toml"@)
            &&& m.doi is Some ==> row.reference == m.doi
            &&& m.doi is None ==> row.reference == m.arxiv_id
            &&& m.doiget matches Some(x) ==> {
                &&& row.source == Some(x.source)
                &&& written ==> row.size_bytes == Some(x.size_bytes) && row.license == Some(
                    x.license,
                )
                &&& m.doi matches Some(d) ==> row.canonical_digest == Some(
                    identity_digest(SourceType::Doi, d, x.source),
                )
                &&& m.doi is None ==> (m.arxiv_id matches Some(a) ==> row.canonical_digest == Some(
                    identity_digest(SourceType::Arxiv, a, x.source),
                ))
                &&& m.doi is None && m.arxiv_id is None ==> row.canonical_digest is None
            }
            &&& m.doiget is None ==> row.source is None && row.canonical_digest is None && (written
                ==> row.size_bytes == Some(0u64) && row.license is None)
        }),
{
}

} // verus!
