//! Verification of signed identity tokens whose signing keys rotate: the
//! keys as they are fetched, the lifetime that a response grants them, the
//! verifier that holds them, and the coordinator that replaces them.

pub mod header_parser;
pub mod jwk;
pub mod jwk_auth;
pub mod jwk_verifier;
pub mod jwt;

pub use jwk_auth::JwkAuth;
pub use jwk_verifier::BasicClaims;
