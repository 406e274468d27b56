//! An asynchronous HTTP/1.1 application-server core: a trie-based router with
//! named-parameter and wildcard segments, a request parser, a worker-pool
//! model with backpressure-driven scaling, and a chunked-transfer response
//! emitter, each with a verified functional contract.

pub mod app;
pub mod bytes;
pub mod emitter;
pub mod empty_resolution;
pub mod endpoint;
pub mod error_resolution;
pub mod errors;
pub mod method;
pub mod middleware;
pub mod file_bytes;
pub mod file_resolution;
pub mod file_text_resolution;
pub mod json_resolution;
pub mod queue;
pub mod resolution;
pub mod redirect;
pub mod request;
pub mod route;
pub mod route_info;
pub mod route_tree;
pub mod segments;
pub mod work_manager;
pub mod worker;
