//! A verified core for a small static-resource HTTP server: request-line
//! and header parsing, the Basic Authentication gate, path resolution,
//! directory listings, and response assembly, each with a proved contract.
//! The I/O around it — sockets, files, threads — lives in the executable
//! that drives this library.

pub mod auth;
pub mod config;
pub mod handler;
pub mod header_parser;
pub mod headers;
pub mod http_parser;
pub mod listing;
pub mod mime;
pub mod paths;
pub mod response;
pub mod strings;
