//! Exact binary-unit formatting of byte counts.
pub mod bytesize;
pub mod laws;
