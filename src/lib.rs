//! A token-issuance ledger: sequential token identifiers sold at a fixed unit
//! price under a hard issuance cap, with per-token metadata locations derived
//! from an administrator-controlled base path.

pub mod contract;
pub mod error;
pub mod laws;
pub mod ledger;
pub mod metadata;
pub mod uri;
