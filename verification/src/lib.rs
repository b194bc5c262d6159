//! The request-to-file mapping core of a filesystem-backed stand-in HTTP
//! server.
//!
//! A request is mapped, by URL path and method, onto one of the response
//! files stored under a directory; the file's contents become the response
//! body. Everything here is free of I/O: the caller lists directories and
//! reads files, and hands the outcomes in as plain values.

pub mod text;
pub mod error;
pub mod request;
pub mod config;
pub mod response;
pub mod output;
pub mod mutation;
pub mod index;
pub mod file_picker;
pub mod dir_picker;
pub mod mapper;
