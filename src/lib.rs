//! Verified core of an image triage tool: scan scheduling, an image cache
//! with at-most-one decode per key, view planning, status texts, commit
//! progress, and decoding and rotating images.

pub mod images;
pub mod view;
pub mod sync;
pub mod cache;
pub mod commit;
pub mod status;
