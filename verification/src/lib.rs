//! Signed oracle attestations folded into per-token evolution state.
//!
//! A trusted oracle signs a sentiment score together with a timestamp. This
//! crate decodes such an attestation, checks the signature against the key
//! held in the configuration record, refuses anything that is not strictly
//! newer than what the token's record has already seen, and moves the token's
//! evolution points by a tiered policy. Records are fixed-width little-endian
//! byte strings; every operation either commits a whole new record or leaves
//! the old one untouched.

pub mod encoding;
pub mod error;
pub mod instruction;
pub mod policy;
pub mod processor;
pub mod signature;
pub mod state;
pub mod update;

pub use error::{AiNftError, ProcessError};
pub use instruction::AiNftInstruction;
pub use policy::EvolutionPolicy;
pub use processor::{AccountRecord, Processor};
pub use state::{ConfigAccount, NftEvolutionAccount, OracleDataAccount};
