//! Forensic-monitoring core for the NTFS change journal and Master File Table.
//!
//! The crate covers the binary protocol for querying and reading the USN
//! change journal, the record-stream parser that turns a raw read buffer into
//! typed change records with a resumable cursor, an incrementally maintained
//! folder-path mapping cache, decoding of single MFT record buffers, and
//! structural diffing of two decoded snapshots.  Device-control calls and
//! thread plumbing live outside the library; everything here works on plain
//! values and is verified.

pub mod bytes;
pub mod errors;
pub mod handler;
pub mod journal;
pub mod json;
pub mod listener;
pub mod mapping;
pub mod records;
pub mod reference;
pub mod snapshot;
pub mod volume;
