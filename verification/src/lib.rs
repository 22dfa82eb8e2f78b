//! A small custodial manager for non-fungible tokens: one token class per
//! manager, a registry that keeps every identifier ever issued, and a vault
//! that holds tokens deposited with the manager.

pub mod laws;
pub mod registry;
pub mod token;
pub mod vault;
