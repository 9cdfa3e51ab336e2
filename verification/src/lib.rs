//! A small HTTP control surface over a container runtime: the replies
//! of each route, the reading of the `container` query parameter, and
//! the fuzzy name lookup behind the health route, each stated in a
//! contract and proved. The daemon calls and the HTTP plumbing live in
//! the service binary built around this library.

pub mod http;
pub mod query;
pub mod runtime;
pub mod text;
