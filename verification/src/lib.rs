//! Validation core for a cell-model non-fungible-asset ("spore") protocol.
//!
//! A transaction is modelled as plain data: input cells, output cells and
//! read-only dependency cells, each with capacity, lock hash, optional type
//! script and opaque data. The library decides whether such a transaction
//! legally creates, transfers or destroys one asset instance, and which
//! extension scripts must be handed control afterwards; the host performs
//! the hand-off.

pub mod actions;
pub mod bytes;
pub mod cluster;
pub mod errors;
pub mod extension;
pub mod hashing;
pub mod laws;
pub mod mime;
pub mod model;
pub mod payment;
pub mod report;
pub mod molecule;
pub mod search;
pub mod utf8;
pub mod validate;
