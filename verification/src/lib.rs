//! Index of the package repositories held in an object-storage bucket.
//!
//! Clients ask for `{branch}/{architecture}/{version}/{file}` and are sent to
//! the matching object of the bucket. The bucket is listed once per
//! time-to-live window; the keys found are parsed into routes, which are
//! deduplicated, indexed and queried from memory.

pub mod seqs;
pub mod text;
pub mod natural;
pub mod route;
pub mod index;
pub mod config;
pub mod public_url;
pub mod cache;
pub mod endpoint;
pub mod web;
