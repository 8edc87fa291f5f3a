//! Battery charge sampling and report rendering.
//!
//! The crate keeps an append-only series of charge samples and turns it into a
//! self-contained report document by substituting computed values into a
//! template.

pub mod text;
pub mod events;
pub mod report;
pub mod store;
pub mod substitution;
pub mod timestamp;
