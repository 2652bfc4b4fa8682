//! Building blocks of a threshold ECDSA protocol over secp256k1.
//!
//! - [`arithmetic`], [`bigint`], [`number_theory`]: big integers, and the
//!   number theory that the solver of congruences rests on;
//! - [`hashing`]: the hash of the Fiat-Shamir transform and hash commitments;
//! - [`dlog_proof`], [`zk_range_proofs`]: proofs in groups of unknown order;
//! - [`utils`]: generators of cyclic groups and the solver of congruences;
//! - [`curve`], [`paillier`]: scalars and points of the curve, Paillier keys;
//! - [`types`], [`messages`]: parameters, signatures, commitments and the
//!   messages of key generation, signing and resharing;
//! - [`protocol`], [`state_machine`], [`error`]: how a round collects its
//!   messages, what the driver decides on each input, and how a protocol
//!   fails;
//! - [`trace`]: how tracing attributes reach nested items.

pub mod arithmetic;
pub mod bigint;
pub mod curve;
pub mod dlog_proof;
pub mod equality;
pub mod error;
pub mod hashing;
pub mod messages;
pub mod number_theory;
pub mod paillier;
pub mod protocol;
pub mod state_machine;
pub mod trace;
pub mod types;
pub mod utils;
pub mod zk_range_proofs;
