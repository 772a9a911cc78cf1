//! An HTTP request router with named path parameters, and the greeting
//! service built on it: `GET /hello/:name` answers `hello: {name}` and
//! `GET /hello` answers `hello`.
//!
//! Routes are registered once, in order, with no two sharing a method and a
//! pattern. A request is answered by the first route whose method matches and
//! whose pattern has as many segments as the path, each literal segment equal
//! to the path's; placeholders (`:name`) capture the segment at their place.
//! A path is split at every `'/'` after a leading one, so `/hello/` has the
//! segments `hello` and the empty segment, and `GET /hello/` is answered
//! `hello: `.

pub mod path;
pub mod pattern;
pub mod method;
pub mod handler;
pub mod router;
pub mod service;
