//! Batch verification of Ed25519 signatures, proved correct down to the curve.
//!
//! [`verify::Verifier`] takes batches of requests in chunks of eight lanes and
//! keeps the tables of public keys in a cache. Its results are those of
//! [`signature::signature_valid`], whatever the cache holds.
pub mod base_order;
pub mod batch;
pub mod bytes;
pub mod cache;
pub mod chunk;
pub mod coordinates;
pub mod digests;
pub mod edwards;
pub mod encodings;
pub mod entries;
pub mod field;
pub mod lanes;
pub mod laws;
pub mod math;
pub mod policy;
pub mod rounds;
pub mod scalar;
pub mod sha512;
pub mod signature;
pub mod steps;
pub mod tables;
pub mod torsion;
pub mod verdicts;
pub mod verify;
pub mod wide;

pub use crate::cache::{HotKeyCache, KeyCache, NullKeyCache};
pub use crate::policy::VerifyPolicy;
pub use crate::verify::{Verifier, VerifyInput};
