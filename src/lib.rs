//! A registry that binds an external identity string to an on-chain address,
//! for as long as that address holds the designated non-fungible asset.

pub mod address;
pub mod ownership;
pub mod registry;
pub mod laws;
pub mod token;
