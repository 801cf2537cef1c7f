//! The object-store logic: keys, listings, multipart plans, and how
//! failures are reported.

pub mod deletion;
pub mod keys;
pub mod listing;
pub mod multipart;
pub mod download;
pub mod errors;
pub mod upload;
