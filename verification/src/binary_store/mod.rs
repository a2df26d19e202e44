//! The binary store: chunk files on disk, upload and download rules.
pub mod http;
pub mod jwt;
pub mod storage;
