//! Core library for fetching open-access papers by DOI or arXiv id.

pub mod bytes;
pub mod canonical;
pub mod capability;
pub mod citation_graph;
pub mod clock;
pub mod credentials;
pub mod digest;
pub mod discovery;
pub mod dry_run;
pub mod errors;
pub mod http;
pub mod json;
pub mod json_read;
pub mod orchestrator;
pub mod order;
pub mod paper_tex_source;
pub mod paths;
pub mod refs;
pub mod safekey;
pub mod score;
pub mod source;
pub mod text;
pub mod urls;

pub use canonical::{CanonicalRef, SourceType};
pub use capability::{
    AlwaysOn, CapabilityError, CapabilityProfile, MetadataAccess, RateLimits, TdmGrant,
    MAX_CONCURRENT_FETCHES, MAX_FETCHES_PER_SECOND,
};
pub use errors::{DenialContext, DenialReason, ErrorCode};
pub use http::fetch::PDF_MAX_BYTES;
pub use refs::{ArxivId, Doi, Ref, RefParseError, DOI_SUFFIX_MAX_LEN};
pub use safekey::Safekey;

use vstd::prelude::*;

verus! {

/// Version of the library.
pub const VERSION: &'static str = "0.1.0";

/// Version of the layout in which metadata is stored.
pub const SCHEMA_VERSION: &'static str = "1.0";

/// Greatest number of references in a batch call.
pub const MCP_BATCH_MAX_SIZE: usize = 100;

/// Greatest number of calls that wait.
pub const MCP_QUEUE_DEPTH_MAX: usize = 100;

/// Seconds after the end of input before the server stops.
pub const MCP_STDIN_EOF_SHUTDOWN_SEC: u64 = 5;

/// Days for which a resolved record is kept.
pub const RESOLVER_CACHE_TTL_DAYS: u32 = 7;

/// Days for which citations are kept.
pub const CITATION_CACHE_TTL_DAYS: u32 = 30;

/// Greatest number of references in a batch.
pub const MAX_BATCH_REFS: usize = 100;

} // verus!
