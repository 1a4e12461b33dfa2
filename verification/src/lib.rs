//! Descriptor-driven extraction of road-work records from open-data JSON
//! sources: a generic engine that reads a declarative per-source descriptor
//! (JSON-path expressions, date-parsing rules, locale handling) and turns
//! arbitrary JSON payloads into strongly-typed records, with a cache-merge
//! algorithm that preserves user annotations across refreshes and a client
//! for a remote synchronization endpoint.

pub mod dataset;
pub mod dates;
pub mod descriptor;
pub mod errors;
pub mod extract;
pub mod fetch;
pub mod jsonio;
pub mod polygon;
pub mod record;
pub mod sync;
pub mod sync_client;
pub mod text;
