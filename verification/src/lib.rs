//! Brute-force recovery of the secret key of an HMAC-SHA256 signed token.
//!
//! The crate enumerates candidate keys over an alphabet and a range of
//! lengths, checks each candidate by recomputing the token's signature, and
//! reports the first candidate that verifies.
//!
//! - [`odometer`]: the order in which the candidates are visited, and what
//!   holds of it.
//! - [`combination_generator`]: the lazy producer of the candidates.
//! - [`token`]: the three segments of a token and their base64 encoding.
//! - [`signature_verifier`]: whether a candidate signs a token.
//! - [`search`]: the search over all candidates on a pool of workers.
//! - [`session`]: the parameters of a search and the state of its owner.
//! - [`jwt`]: a token as readable text, and a token signed anew.

pub mod combination_generator;
pub mod jwt;
pub mod odometer;
pub mod search;
pub mod session;
pub mod signature_verifier;
pub mod token;
