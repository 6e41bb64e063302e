//! Request-signing and publishing core for an S3-compatible object store.
//!
//! The crate derives presigned PUT URLs (Signature V4), resolves request
//! hosts, canonical URIs and public URLs for both path-style and
//! virtual-host addressing, and prepares direct uploads.  All string
//! handling is done over UTF-8 byte vectors so that canonicalization and
//! signing are specified byte for byte.

pub mod bytestr;
pub mod encode;
pub mod crypto;
pub mod timefmt;
pub mod errors;
pub mod endpoint;
pub mod address;
pub mod query;
pub mod sigv4;
pub mod presign;
pub mod upload;
pub mod update;
pub mod pending;
