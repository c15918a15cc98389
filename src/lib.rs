//! Verification of GRANDPA finality justifications: signature checks, ancestry
//! walks, the supermajority rule, the authority-set commitment and the binary
//! decoders that feed them.

pub mod ancestry;
pub mod bytes;
pub mod commitment;
pub mod compact;
pub mod error;
pub mod justification;
pub mod precommit;
pub mod signature;
pub mod validators;
