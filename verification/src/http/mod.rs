//! Transport rules: which hosts a source may reach, how a redirect is judged,
//! when a request is tried again, and what body is accepted.

pub mod allowlist;
pub mod error;
pub mod fetch;
