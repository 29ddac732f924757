//! Read-side access layer over immutable, columnar chain-data segments.

pub mod collect;
pub mod error;
pub mod jar;
pub mod primitives;
pub mod provider;
pub mod ranges;
