//! Acquisition and verification of public proxy endpoints.
//!
//! A candidate list arrives as plain text, one `ip:port` per line. A bounded
//! random sample of it is encoded as the fields of one verification request,
//! and the service's JSON answer is decoded into typed records. This crate
//! holds every decision of that pipeline; the network calls themselves are
//! made by the caller, which hands text and JSON in and takes requests out.
//!
//! - [`candidate`]: candidates and the parsers of the list and of a single
//!   `ip:port`.
//! - [`selector`]: the random sample.
//! - [`encoding`]: the fields of a verification request.
//! - [`json`] and [`record`]: the answer, and the records decoded from it.
//! - [`pipeline`]: what to do between the network calls of an operation.
//! - [`permissions`]: the permission that a configuration string names.
//! - [`text`]: helpers on characters and decimal numbers.

pub mod text;
pub mod candidate;
pub mod selector;
pub mod encoding;
pub mod json;
pub mod record;
pub mod pipeline;
pub mod permissions;

pub use candidate::Proxy;
pub use record::{OptString, ProxyCheckResult, ProxyCheckResults};
