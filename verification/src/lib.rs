//! Resolution of known vulnerabilities in declared Python dependencies.
//!
//! The library parses dependency manifests (pinned requirement lists and
//! structured lock files) into declarations, builds the query sent to a
//! vulnerability-advisory service for each declaration, and normalizes the
//! service's JSON answer into one canonical finding per affected package:
//! latest advisory selected by publication time, fields defaulted where the
//! schema-loose payload omits them, and the highest fixed version resolved
//! across all affected ranges by semantic-version order.

pub mod advisory;
pub mod doc;
pub mod engine;
pub mod json;
pub mod manifest;
pub mod semver_cmp;
pub mod strutil;
