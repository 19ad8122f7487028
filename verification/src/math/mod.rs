//! The mathematics of the curve: congruences, the field, and the group.
pub mod certificate;
pub mod congruence;
pub mod curve;
pub mod gf;
pub mod identities;
pub mod order_certificate;
pub mod poly;
pub mod primes;
