//! What the library does, said of its calls.
//!
//! Each law here is about what calls return, given what they were called with.  The
//! laws speak of the fields of files, manifests and errors, and not of the notions in
//! which the functions state their own contracts.
pub mod files;
pub mod replacements;
pub mod row_deltas;
pub mod runs;
