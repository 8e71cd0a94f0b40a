//! Construction and signing of JSON Web Signature (JWS) objects, RFC 7515.
//!
//! A [`jws::Jws`] container pairs a payload with one of three format
//! variants (compact, flat, general).  Signing computes the RFC 7515
//! signing input `BASE64URL(protected) "." BASE64URL(payload)` and feeds
//! it to a pluggable MAC backend; the result is a new, type-tagged signed
//! value.  Base64url and wire assembly live in [`encode`], the algorithm
//! identifiers and backends in [`sign_alg`].

pub mod encode;
pub mod jws;
pub mod sign_alg;
