//! Cross-circuit proof linking: circuit schemas with named link groups, a
//! deterministic layout compiler, constraint evaluation, link-compatibility
//! checks and framing of serialized proofs; and the text of the Solidity
//! library of Merkle-tree zero values.

pub mod field;
pub mod schema;
pub mod circuit;
pub mod circuits;
pub mod link;
pub mod merkle_zeros;
pub mod verification;
