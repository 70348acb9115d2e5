//! Feature-flag evaluation engine: attribute trees, the targeting-condition
//! language, deterministic bucketing and feature rule resolution.
//!
//! Positions in the bucketing space, coverages, weights and ranges are
//! written in billionths of the whole (`hash::UNIT`); non-integral JSON
//! numbers are carried as their decimal text.

pub mod attribute;
pub mod condition;
pub mod condition_spec;
pub mod coverage;
pub mod dto;
pub mod error;
pub mod feature;
pub mod filter;
pub mod growthbook;
pub mod hash;
pub mod laws;
pub mod model;
pub mod namespace;
pub mod number;
pub mod pattern;
pub mod range;
pub mod text;
pub mod version;
