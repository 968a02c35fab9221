//! An in-memory descriptor model for Protocol-Buffers-style schemas.
//!
//! A schema loader builds a forest of [`Proto`] nodes, one per `message`,
//! `oneof` or `enum` definition it encounters, filling each node's numbered
//! attributes and named nested definitions.  A binary decoder later walks the
//! finished tree read-only: it looks an attribute up by its numeric tag and
//! descends into a nested definition by its name.

pub mod annotation;
pub mod proto_structure;
mod text;

pub use annotation::{ParseProtoAnnotationError, ProtoAnnotation};
pub use proto_structure::{KindOf, Proto, ProtoAttribute};
