//! The permutation family behind the hash of the traces and behind the protocol's
//! challenges, with its one instance over the 64-bit field.
pub mod acc64;
pub mod mds_inverse;
