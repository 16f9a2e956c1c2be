//! Verified core of the ArthNeura settlement chain.
use vstd::prelude::*;

pub mod agent_client;
pub mod agent_registry;
pub mod chunk_store;
pub mod crypto;
pub mod escrow;
pub mod keystore;
pub mod ledger;
pub mod merkle;
pub mod paths;
pub mod runtime;
pub mod table;
pub mod types;
pub mod vector_db;

verus! {

} // verus!
