use vstd::prelude::*;

use cosmwasm_std::StdError;

use crate::error::ContractError;
use crate::msg::InstantiateMsg;
use crate::state::{Constants, MintRequestInfo, RequestView};

verus! {

/// The `action` attribute a successful request is answered with.
#[derive(Clone, Copy, Debug, PartialEq, Eq)]
pub enum Action {
    CreateMintReq,
    ApproveMintRequest,
    Mint,
}

/// The text of an action attribute.
pub open spec fn action_text(action: Action) -> Seq<char> {
    match action {
        Action::CreateMintReq => "create_mint_req"@,
        Action::ApproveMintRequest => "approve_mint_requestr"@,
        Action::Mint => "mint"@,
    }
}

impl Action {
    /// The attribute value, as the contract reports it.
    pub fn as_str(&self) -> (text: &'static str)
        ensures
            text@ == action_text(*self),
    {
        match self {
            Action::CreateMintReq => "create_mint_req",
            Action::ApproveMintRequest => "approve_mint_requestr",
            Action::Mint => "mint",
        }
    }
}

/// Whether `signer` has approved proposal `proposal_id`: one record of the
/// approvals table.
#[derive(Clone, Debug, PartialEq)]
pub struct ApprovalRecord {
    pub signer: String,
    pub proposal_id: u128,
    pub approved: bool,
}

pub struct ApprovalView {
    pub signer: Seq<char>,
    pub proposal_id: u128,
    pub approved: bool,
}

impl View for ApprovalRecord {
    type V = ApprovalView;

    open spec fn view(&self) -> ApprovalView {
        ApprovalView { signer: self.signer@, proposal_id: self.proposal_id, approved: self.approved }
    }
}

/// What instantiation stores: the first proposal id, the constants, the
/// admin, the signers, and a cleared approval for each signer on the first
/// proposal.
pub struct InstantiatePlan {
    pub proposal_id: u128,
    pub constants: Constants,
    pub admin: String,
    pub signers: Vec<String>,
    pub approvals: Vec<ApprovalRecord>,
}

pub struct InstantiateView {
    pub proposal_id: u128,
    pub name: Seq<char>,
    pub admin: Seq<char>,
    pub signers: Seq<Seq<char>>,
    pub approvals: Seq<ApprovalView>,
}

impl View for InstantiatePlan {
    type V = InstantiateView;

    open spec fn view(&self) -> InstantiateView {
        InstantiateView {
            proposal_id: self.proposal_id,
            name: self.constants.name@,
            admin: self.admin@,
            signers: addresses(self.signers@),
            approvals: self.approvals@.map_values(|r: ApprovalRecord| r@),
        }
    }
}

/// What creating a request stores: the new request under `key`, and the
/// next proposal id.
#[derive(Clone, Debug, PartialEq)]
pub struct CreatePlan {
    pub key: u128,
    pub request: MintRequestInfo,
    pub next_proposal_id: u128,
    pub action: Action,
}

pub struct CreateView {
    pub key: u128,
    pub request: RequestView,
    pub next_proposal_id: u128,
    pub action: Action,
}

impl View for CreatePlan {
    type V = CreateView;

    open spec fn view(&self) -> CreateView {
        CreateView {
            key: self.key,
            request: self.request@,
            next_proposal_id: self.next_proposal_id,
            action: self.action,
        }
    }
}

/// What an approval stores: the updated request under `key`, and the
/// approver's record.
#[derive(Clone, Debug, PartialEq)]
pub struct ApprovePlan {
    pub key: u128,
    pub request: MintRequestInfo,
    pub record: ApprovalRecord,
    pub action: Action,
}

pub struct ApproveView {
    pub key: u128,
    pub request: RequestView,
    pub record: ApprovalView,
    pub action: Action,
}

impl View for ApprovePlan {
    type V = ApproveView;

    open spec fn view(&self) -> ApproveView {
        ApproveView {
            key: self.key,
            request: self.request@,
            record: self.record@,
            action: self.action,
        }
    }
}

/// What a mint stores: the completed request under `key`.
#[derive(Clone, Debug, PartialEq)]
pub struct MintPlan {
    pub key: u128,
    pub request: MintRequestInfo,
    pub action: Action,
}

pub struct MintView {
    pub key: u128,
    pub request: RequestView,
    pub action: Action,
}

impl View for MintPlan {
    type V = MintView;

    open spec fn view(&self) -> MintView {
        MintView { key: self.key, request: self.request@, action: self.action }
    }
}

/// The addresses of a signer list, as mathematical strings.
pub open spec fn addresses(list: Seq<String>) -> Seq<Seq<char>> {
    list.map_values(|s: String| s@)
}

/// A stored signer list as read: its addresses, or the read's error.
pub open spec fn signers_read(read: Result<Vec<String>, StdError>) -> Result<Seq<Seq<char>>, StdError> {
    match read {
        Ok(list) => Ok(addresses(list@)),
        Err(e) => Err(e),
    }
}

/// A stored request as read: its view, or the read's error.
pub open spec fn request_read(read: Result<MintRequestInfo, StdError>) -> Result<RequestView, StdError> {
    match read {
        Ok(request) => Ok(request@),
        Err(e) => Err(e),
    }
}

/// An approval as read; a read that fails counts as "not approved".
pub open spec fn approved_flag(read: Result<bool, StdError>) -> bool {
    match read {
        Ok(flag) => flag,
        Err(_) => false,
    }
}

/// The result of creating a mint request, given the stored proposal id.
pub open spec fn create_outcome(proposal_id: Result<u128, StdError>, sender: Seq<char>) -> Result<
    CreateView,
    ContractError,
> {
    match proposal_id {
        Err(e) => Err(ContractError::Std(e)),
        Ok(id) => Ok(
            CreateView {
                key: id,
                request: RequestView { proposal_id: id, owner: sender, approvals: 0, completed: false },
                next_proposal_id: (id + 1) as u128,
                action: Action::CreateMintReq,
            },
        ),
    }
}

/// Whether an approval gets past every check and reaches the increment of
/// the approval count.
pub open spec fn approve_checks_pass(
    signers: Result<Seq<Seq<char>>, StdError>,
    sender: Seq<char>,
    approved: Result<bool, StdError>,
    request: Result<RequestView, StdError>,
    proposal_id: u128,
) -> bool {
    &&& signers matches Ok(list) && list.contains(sender)
    &&& !approved_flag(approved)
    &&& request matches Ok(r) && (!r.proposal_id) != proposal_id
}

/// The result of an approval of `proposal_id` by `sender`, given what was
/// stored: the signer list, the sender's approval record, and the request.
pub open spec fn approve_outcome(
    signers: Result<Seq<Seq<char>>, StdError>,
    sender: String,
    approved: Result<bool, StdError>,
    request: Result<RequestView, StdError>,
    proposal_id: u128,
) -> Result<ApproveView, ContractError> {
    match signers {
        Err(e) => Err(ContractError::Std(e)),
        Ok(list) => if !list.contains(sender@) {
            Err(ContractError::Unauthorised { address: sender })
        } else if approved_flag(approved) {
            Err(ContractError::AlreadyApproved { address: sender })
        } else {
            match request {
                Err(e) => Err(ContractError::Std(e)),
                Ok(r) => if (!r.proposal_id) == proposal_id {
                    Err(ContractError::InvalidProposalId { proposal_id })
                } else {
                    Ok(
                        ApproveView {
                            key: proposal_id,
                            request: RequestView { approvals: (r.approvals + 1) as u128, ..r },
                            record: ApprovalView { signer: sender@, proposal_id, approved: true },
                            action: Action::ApproveMintRequest,
                        },
                    )
                },
            }
        },
    }
}

/// The result of minting `proposal_id` at the request of `sender`, given
/// the stored request.
pub open spec fn mint_outcome(
    request: Result<RequestView, StdError>,
    sender: Seq<char>,
    proposal_id: u128,
) -> Result<MintView, ContractError> {
    match request {
        Err(e) => Err(ContractError::Std(e)),
        Ok(r) => if r.owner != sender {
            Err(ContractError::NotOwner {  })
        } else if r.completed {
            Err(ContractError::Completed { proposal_id })
        } else {
            Ok(
                MintView {
                    key: proposal_id,
                    request: RequestView { completed: true, ..r },
                    action: Action::Mint,
                },
            )
        },
    }
}

pub open spec fn create_result(res: Result<CreatePlan, ContractError>) -> Result<CreateView, ContractError> {
    match res {
        Ok(plan) => Ok(plan@),
        Err(e) => Err(e),
    }
}

pub open spec fn approve_result(res: Result<ApprovePlan, ContractError>) -> Result<ApproveView, ContractError> {
    match res {
        Ok(plan) => Ok(plan@),
        Err(e) => Err(e),
    }
}

pub open spec fn mint_result(res: Result<MintPlan, ContractError>) -> Result<MintView, ContractError> {
    match res {
        Ok(plan) => Ok(plan@),
        Err(e) => Err(e),
    }
}

/// Whether `who` is one of the addresses in `list`.
fn list_contains(list: &Vec<String>, who: &String) -> (found: bool)
    ensures
        found == addresses(list@).contains(who@),
{
    let mut i: usize = 0;
    while i < list.len()
        invariant
            i <= list.len(),
            forall|j: int| 0 <= j < i ==> list@[j]@ != who@,
        decreases list.len() - i,
    {
        if list[i] == *who {
            assert(addresses(list@)[i as int] == who@);
            return true;
        }
        i = i + 1;
    }
    proof {
        if addresses(list@).contains(who@) {
            let k = choose|k: int| 0 <= k < addresses(list@).len() && addresses(list@)[k] == who@;
            assert(list@[k]@ == who@);
        }
    }
    false
}

/// What the contract stores when it is created by `sender`: proposal ids
/// start at 0, `sender` becomes the admin, the signers are kept in the
/// given order, and each signer gets a cleared approval on proposal 0.
pub open spec fn instantiate_outcome(name: Seq<char>, signers: Seq<Seq<char>>, sender: Seq<char>) -> InstantiateView {
    InstantiateView {
        proposal_id: 0,
        name,
        admin: sender,
        signers,
        approvals: signers.map_values(
            |a: Seq<char>| ApprovalView { signer: a, proposal_id: 0, approved: false },
        ),
    }
}

/// Sets up the contract for `sender`: see `instantiate_outcome`.
pub fn instantiate(msg: InstantiateMsg, sender: String) -> (plan: InstantiatePlan)
    ensures
        plan@ == instantiate_outcome(msg.name@, addresses(msg.signers@), sender@),
{
    let proposal_id: u128 = 0;
    let constants = Constants { name: msg.name };
    let mut signers: Vec<String> = Vec::new();
    let mut approvals: Vec<ApprovalRecord> = Vec::new();
    let mut i: usize = 0;
    while i < msg.signers.len()
        invariant
            proposal_id == 0,
            i <= msg.signers@.len(),
            signers@.len() == i,
            approvals@.len() == i,
            forall|j: int| 0 <= j < i ==> #[trigger] signers@[j]@ == msg.signers@[j]@,
            forall|j: int|
                0 <= j < i ==> #[trigger] approvals@[j]@ == (ApprovalView {
                    signer: msg.signers@[j]@,
                    proposal_id: 0,
                    approved: false,
                }),
        decreases msg.signers@.len() - i,
    {
        let signer = msg.signers[i].clone();
        signers.push(signer.clone());
        approvals.push(ApprovalRecord { signer, proposal_id, approved: false });
        i = i + 1;
    }
    let plan = InstantiatePlan { proposal_id, constants, admin: sender, signers, approvals };
    assert(addresses(plan.signers@) =~= addresses(msg.signers@));
    assert(plan@.approvals =~= addresses(msg.signers@).map_values(
        |a: Seq<char>| ApprovalView { signer: a, proposal_id: 0, approved: false },
    ));
    plan
}

/// Creates a mint request owned by `sender` under the stored proposal id,
/// and moves the proposal id on by one.
pub fn try_create_mint_request(proposal_id: Result<u128, StdError>, sender: String) -> (res: Result<
    CreatePlan,
    ContractError,
>)
    requires
        proposal_id matches Ok(id) ==> id < u128::MAX,
    ensures
        create_result(res) == create_outcome(proposal_id, sender@),
{
    match proposal_id {
        Err(e) => Err(ContractError::Std(e)),
        Ok(id) => {
            let request = MintRequestInfo { proposal_id: id, owner: sender, approvals: 0, completed: false };
            Ok(CreatePlan { key: id, request, next_proposal_id: id + 1, action: Action::CreateMintReq })
        },
    }
}

/// Whether an approval with these stored values would count one more
/// approval on a request that already holds the largest count: the one
/// input on which the approval cannot be carried out.
pub fn approve_overflows(
    signers: &Result<Vec<String>, StdError>,
    sender: &String,
    approved: &Result<bool, StdError>,
    request: &Result<MintRequestInfo, StdError>,
    proposal_id: u128,
) -> (overflows: bool)
    ensures
        overflows == (approve_checks_pass(
            signers_read(*signers),
            sender@,
            *approved,
            request_read(*request),
            proposal_id,
        ) && request_read(*request)->Ok_0.approvals == u128::MAX),
{
    let listed = match signers {
        Ok(list) => list_contains(list, sender),
        Err(_) => false,
    };
    let flag = match approved {
        Ok(flag) => *flag,
        Err(_) => false,
    };
    match request {
        Ok(r) => listed && !flag && (!r.proposal_id) != proposal_id && r.approvals == u128::MAX,
        Err(_) => false,
    }
}

/// Records the approval of `proposal_id` by `sender`. Refused when the
/// sender is not a signer, when the sender already approved it, or when
/// the stored request does not match the id; a failed read is passed on.
pub fn try_approve_mint_request(
    signers: Result<Vec<String>, StdError>,
    sender: String,
    approved: Result<bool, StdError>,
    request: Result<MintRequestInfo, StdError>,
    proposal_id: u128,
) -> (res: Result<ApprovePlan, ContractError>)
    requires
        approve_checks_pass(signers_read(signers), sender@, approved, request_read(request), proposal_id)
            ==> request_read(request)->Ok_0.approvals < u128::MAX,
    ensures
        approve_result(res) == approve_outcome(
            signers_read(signers),
            sender,
            approved,
            request_read(request),
            proposal_id,
        ),
{
    let list = match signers {
        Err(e) => {
            return Err(ContractError::Std(e));
        },
        Ok(list) => list,
    };
    if !list_contains(&list, &sender) {
        return Err(ContractError::Unauthorised { address: sender });
    }
    let has_approved = match approved {
        Ok(flag) => flag,
        Err(_) => false,
    };
    if has_approved {
        return Err(ContractError::AlreadyApproved { address: sender });
    }
    let mut req_info = match request {
        Err(e) => {
            return Err(ContractError::Std(e));
        },
        Ok(r) => r,
    };
    if (!req_info.proposal_id) == proposal_id {
        return Err(ContractError::InvalidProposalId { proposal_id });
    }
    req_info.approvals = req_info.approvals + 1;
    let record = ApprovalRecord { signer: sender, proposal_id, approved: true };
    Ok(ApprovePlan { key: proposal_id, request: req_info, record, action: Action::ApproveMintRequest })
}

/// Marks request `proposal_id` as completed. Refused when `sender` does not
/// own it or when it was already completed; a failed read is passed on.
pub fn try_mint(request: Result<MintRequestInfo, StdError>, sender: String, proposal_id: u128) -> (res:
    Result<MintPlan, ContractError>)
    ensures
        mint_result(res) == mint_outcome(request_read(request), sender@, proposal_id),
{
    let mut req_info = match request {
        Err(e) => {
            return Err(ContractError::Std(e));
        },
        Ok(r) => r,
    };
    if req_info.owner != sender {
        return Err(ContractError::NotOwner {  });
    }
    if req_info.completed {
        return Err(ContractError::Completed { proposal_id });
    }
    req_info.completed = true;
    Ok(MintPlan { key: proposal_id, request: req_info, action: Action::Mint })
}

} // verus!
