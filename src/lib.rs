//! On-chain state engine of a small social network: posts, profiles, follow
//! and like relations and chunked image data, held in an address-keyed ledger.

pub mod address;
pub mod records;
pub mod ledger;
pub mod instructions;
pub mod laws;
pub mod layout;
