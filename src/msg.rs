//! Messages the contract is instantiated, driven and queried with.
use vstd::prelude::*;

verus! {

/// Addresses and code hashes the contract is set up with.
#[derive(Clone, Debug, PartialEq, Eq)]
pub struct InstantiateMsg {
    pub registration_address: String,
    pub registration_wallet: String,
    pub contract_manager: String,
    pub anml_token_contract: String,
    pub anml_token_hash: String,
    pub erth_token_contract: String,
    pub erth_token_hash: String,
    pub anml_pool_contract: String,
    pub anml_pool_hash: String,
}

/// What an incoming token transfer asks the contract to do.
#[derive(Clone, Copy, Debug, PartialEq, Eq, Structural)]
pub enum ReceiveMsg {
    AllocationSend { allocation_id: u32 },
}

/// What an outgoing token send asks its recipient to do.
#[derive(Clone, Copy, Debug, PartialEq, Eq, Structural)]
pub enum SendMsg {
    AnmlBuybackSwap {},
    AllocationSend { allocation_id: u32 },
    ClaimAllocation { allocation_id: u32 },
}

/// Migration requests.
#[derive(Clone, Copy, Debug, PartialEq, Eq, Structural)]
pub enum MigrateMsg {
    Migrate {},
}

/// Queries the contract answers.
#[derive(Clone, Debug, PartialEq, Eq)]
pub enum QueryMsg {
    QueryState {},
    QueryConfig {},
    QueryRegistrationStatus { address: String },
    QueryUserAllocations { address: String },
    QueryAllocationOptions {},
}

} // verus!
