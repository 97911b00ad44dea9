use vstd::prelude::*;

verus! {

/// The contract's name, kept under the configuration prefix.
#[derive(Clone, Debug, PartialEq)]
pub struct Constants {
    pub name: String,
}

/// One mint request: who asked for it, how many signers approved it, and
/// whether it was carried out.
#[derive(Clone, Debug, PartialEq)]
pub struct MintRequestInfo {
    pub proposal_id: u128,
    pub owner: String,
    pub approvals: u128,
    pub completed: bool,
}

/// A mint request as a mathematical value.
pub struct RequestView {
    pub proposal_id: u128,
    pub owner: Seq<char>,
    pub approvals: u128,
    pub completed: bool,
}

impl View for MintRequestInfo {
    type V = RequestView;

    open spec fn view(&self) -> RequestView {
        RequestView {
            proposal_id: self.proposal_id,
            owner: self.owner@,
            approvals: self.approvals,
            completed: self.completed,
        }
    }
}

} // verus!
