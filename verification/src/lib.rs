//! Verified core of a crash-report ingest service.
//!
//! Client applications upload zlib-compressed packages holding a proprietary
//! binary container: a magic tag, delimiter-framed strings, zero-run padding,
//! little-endian size fields and a list of named embedded files.  This crate
//! proves the decoding of that container exact: the byte-layout grammar is
//! written down as specification functions, and every executable decoder is
//! shown to agree with them.  A companion extractor streams one designated
//! markup file out of the container and recovers three diagnostic text fields
//! by tag-path matching.
//!
//! The surrounding service (HTTP routing, storage layout, notification) is
//! ordinary plumbing and lives outside this library.

pub mod container;
pub mod crash_overview;
pub mod decompress;
pub mod errors;
pub mod ingest;
pub mod locator;
pub mod markup;
