use vstd::prelude::*;

verus! {

/// What the contract is created with: its name and the addresses allowed
/// to approve mint requests.
#[derive(Clone, Debug, PartialEq)]
pub struct InstantiateMsg {
    pub name: String,
    pub signers: Vec<String>,
}

/// The requests the contract executes.
#[derive(Clone, Copy, Debug, PartialEq, Eq)]
pub enum ExecuteMsg {
    CreateMintRequest {},
    ApproveMintRequest { proposal_id: u128 },
    Mint { proposal_id: u128 },
}

#[derive(Clone, Copy, Debug, PartialEq, Eq)]
pub struct BalanceResp {
    pub balance: u128,
}

#[derive(Clone, Copy, Debug, PartialEq, Eq)]
pub struct FrozonBalanceResp {
    pub frozonbalance: u128,
}

#[derive(Clone, Debug, PartialEq)]
pub struct ShareHoldersResp {
    pub shareholders: Vec<String>,
}

} // verus!
