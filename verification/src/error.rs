use vstd::prelude::*;

verus! {

/// Declares `cosmwasm_std::StdError`, the host's error for a storage read
/// that found nothing or could not be parsed, as an opaque type: nothing is
/// assumed of its values, which the library only passes on unchanged.
#[verifier::external_type_specification]
#[verifier::external_body]
pub struct ExStdError(cosmwasm_std::StdError);

/// Errors the contract answers a refused request with.
#[derive(Debug, PartialEq)]
pub enum ContractError {
    Std(cosmwasm_std::StdError),
    InsufficientFunds { balance: u128, required: u128 },
    InsufficientFreezeFunds { balance: u128, required: u128 },
    OnlyFeezeFundLeft { balance: u128 },
    UnauthorisedCountry { country_code: u128 },
    CorruptedDataFound {},
    CanNotFreezeAccount {},
    FreezedAccount {},
    NotAdmin {},
    CanNotRemove { address: String, balance: u128 },
    MaxHolderBalance { address: String },
    InvalidProposalId { proposal_id: u128 },
    Unauthorised { address: String },
    AlreadyApproved { address: String },
    NotEnoughApproval { approvals: u128 },
    NotOwner {},
    Completed { proposal_id: u128 },
}

} // verus!
