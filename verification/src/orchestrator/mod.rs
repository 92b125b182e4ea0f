//! The operations that put several sources together.

pub mod attempts;
pub mod audit;
pub mod chain;
pub mod doi;
pub mod extract;
pub mod legs;
pub mod metadata;
pub mod paper;
