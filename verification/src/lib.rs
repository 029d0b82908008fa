//! Snapshot-producing actions of an Apache Iceberg table transaction.
//!
//! Two kinds of action are covered: replacing files by other files
//! ([`replace_files`]) and applying row-level changes ([`row_delta`]).  An
//! action collects files, checks itself, and turns into a
//! [`snapshot::SnapshotProducer`] together with an operation that says which
//! manifest entries the new snapshot deletes and which manifests it carries
//! over.
//!
//! Nothing here reads or writes storage.  Where an operation needs a manifest
//! list or a manifest, it hands out a request and takes the answer back, see
//! [`walk`].

pub mod data_file;
pub mod error;
pub mod laws;
pub mod manifest;
pub mod removal;
pub mod replace_files;
pub mod row_delta;
mod seqs;
pub mod snapshot;
pub mod walk;
