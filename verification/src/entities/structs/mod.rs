//! Fixed-schema numeric records carried by every entity.

pub mod attributes;
pub mod stats;
