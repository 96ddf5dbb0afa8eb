//! Structured comparison of OpenAPI-style API descriptions.
//!
//! The crate models an API description as an owned tree of plain values,
//! walks two such trees in lock-step to produce a minimal change-tree, and
//! resolves top-level file references. Loading documents from disk and
//! rendering the resulting change-tree are left to callers.

pub mod diff;
pub mod json_ref;
pub mod keyed;
pub mod openapi;
