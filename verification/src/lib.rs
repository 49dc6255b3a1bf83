//! An on-demand image-thumbnail service, as a library: a bounded cache of
//! fetched source images, an engine that applies an ordered list of image
//! operations, and the per-request decisions that tie the two together.
//!
//! The network, the HTTP server and the lock around the shared cache belong
//! to the program that uses this library; the library decides, the program
//! fetches and sends.
//!
//! - [`source`]: the address of a source image and its cache key.
//! - [`cache`]: the fetch cache, with the laws of its eviction order.
//! - [`ops`]: the operations of a request.
//! - [`picture`]: what an image is and what each operation makes of it.
//! - [`engine`]: the engine as an interface, and one backend.
//! - [`codec`]: decoding, scaling and encoding, done by the `image` crate.
//! - [`handler`]: one request from its path to its response.
//! - [`error`]: the failures of a request and their response classes.
//!
//! Two small companions share the crate: [`args`] and [`client`] serve a
//! command-line HTTP client, [`dialect`] a SQL dialect whose identifiers
//! may be URLs.

pub mod args;
pub mod cache;
pub mod client;
pub mod codec;
pub mod dialect;
pub mod engine;
pub mod error;
pub mod handler;
pub mod ops;
pub mod picture;
pub mod raw;
pub mod source;
