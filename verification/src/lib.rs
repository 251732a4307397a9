//! A persistent entity store for a scheduling domain.
//!
//! Four record kinds (lessons, teachers, students, schedule entries) live in
//! durable ordered collections, one per kind, carved out of a single linear
//! memory by a region allocator. Each kind has a durable counter that mints
//! monotonically increasing identifiers, and records are serialized into
//! bounded byte buffers before they are written. On top of that sit the
//! repository operations: create/read/update/delete plus relationship
//! maintenance between the kinds.

pub mod backend;
pub mod codec;
pub mod errors;
pub mod laws;
pub mod lessons;
pub mod records;
pub mod relations;
pub mod schedule;
pub mod store;
pub mod students;
pub mod teachers;
pub mod text;
