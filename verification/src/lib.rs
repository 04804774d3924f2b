//! Request-to-text echo pipeline: a binary-safe byte sanitizer, a
//! deterministic request serializer, and a multipart/form-data encoder.

pub mod sanitize;
pub mod utf8check;
pub mod serialize;
pub mod multipart;
