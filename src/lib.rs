//! Chaum–Pedersen zero-knowledge password authentication: modular arithmetic,
//! the prover's computations, and the server's user and session stores.
pub mod arith;
pub mod error;
pub mod num;
pub mod parse;
pub mod params;
pub mod protocol;
mod random;
pub mod service;
pub mod table;
