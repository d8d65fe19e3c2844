//! Bridge between a host's tagged value tree and canonical JSON, with a
//! path-query dispatcher around an external query engine.
//!
//! The canonicalizer ([`convert`]) maps every value variant to a canonical
//! JSON document, exhaustively and losslessly where possible; the
//! materializer ([`materialize`]) maps JSON nodes back, totally; the
//! dispatcher ([`dispatch`]) validates the input shape, drives parsing and
//! query evaluation, and builds the externally visible error. The query
//! grammar and its evaluation, and JSON text parsing and printing, are
//! outside capabilities consumed through the contracts in [`engine`];
//! [`laws`] holds the proofs of the round trip and of order preservation.

pub mod convert;
pub mod dispatch;
pub mod engine;
pub mod json;
pub mod laws;
pub mod materialize;
pub mod value;
