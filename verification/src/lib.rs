//! Core of a ceased-sidechain-withdrawal (CSW) proving library.
//!
//! The crate models the circuit field as canonical little-endian bytes,
//! derives the protocol's nothing-up-my-sleeve parameters by hash-to-curve,
//! builds the withdrawal circuit as a checked constraint graph, and manages
//! the proving-system key lifecycle (size bounds and tagged serialization).

pub mod bytes;
pub mod error;
pub mod field;
pub mod hashing;
pub mod curve;
pub mod params;
pub mod gadgets;
pub mod csw;
pub mod proving;
