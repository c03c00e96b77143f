//! Accumulator engine for a multi-party "powers of tau" ceremony.
//!
//! Each participant takes a challenge, the current accumulator, raises its
//! elements to secret exponents, and publishes the response with a proof of
//! knowledge of the exponents. The verifier accepts a response only if it
//! is a transformation of the challenge that it embeds the digest of.
//!
//! The arithmetic of the curve and the hash are those of the `bellman_ce`,
//! `rand` and `blake2` crates; every call into them stands in a function of
//! its own in [`curve`], [`scalar`] and [`utils`], whose contract says what
//! is taken on trust. Everything else is proved from those contracts.

pub mod config;
pub mod curve;
pub mod engine;
pub mod error;
pub mod keypair;
pub mod layout;
pub mod parameters;
pub mod runtime_parameters;
pub mod scalar;
pub mod store;
pub mod transcript;
pub mod tui;
pub mod utils;
pub mod verification;

pub use config::CeremonyConfig;
pub use engine::{contribute, transform};
pub use error::CeremonyError;
pub use keypair::{Keypair, PublicKey};
pub use parameters::{CheckForCorrectness, UseCompression};
pub use runtime_parameters::RuntimeCeremonyParameters;
pub use store::AccumulatorStore;
pub use transcript::Transcript;
pub use utils::{blank_hash, hash_of};
pub use verification::{verify, Verdict};
