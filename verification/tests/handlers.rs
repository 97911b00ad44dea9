use cosmwasm_std::StdError;
use multisig_mint::contract::{
    approve_overflows, instantiate, try_approve_mint_request, try_create_mint_request, try_mint,
    Action, ApprovalRecord, ApprovePlan, CreatePlan, MintPlan,
};
use multisig_mint::error::ContractError;
use multisig_mint::msg::InstantiateMsg;
use multisig_mint::state::MintRequestInfo;

fn s(text: &str) -> String {
    text.to_string()
}

fn request(id: u128, owner: &str, approvals: u128, completed: bool) -> MintRequestInfo {
    MintRequestInfo { proposal_id: id, owner: s(owner), approvals, completed }
}

fn signers() -> Vec<String> {
    vec![s("alice"), s("bob"), s("carol")]
}

#[test]
fn instantiate_stores_signers_and_clears_first_proposal() {
    let msg = InstantiateMsg { name: s("Provenance Token"), signers: signers() };
    let plan = instantiate(msg, s("creator"));
    assert_eq!(plan.proposal_id, 0);
    assert_eq!(plan.constants.name, "Provenance Token");
    assert_eq!(plan.admin, "creator");
    assert_eq!(plan.signers, signers());
    assert_eq!(
        plan.approvals,
        vec![
            ApprovalRecord { signer: s("alice"), proposal_id: 0, approved: false },
            ApprovalRecord { signer: s("bob"), proposal_id: 0, approved: false },
            ApprovalRecord { signer: s("carol"), proposal_id: 0, approved: false },
        ]
    );
}

#[test]
fn instantiate_with_no_signers() {
    let plan = instantiate(InstantiateMsg { name: s("x"), signers: vec![] }, s("creator"));
    assert!(plan.signers.is_empty());
    assert!(plan.approvals.is_empty());
}

#[test]
fn create_uses_stored_id_and_moves_it_on() {
    let res = try_create_mint_request(Ok(7), s("owner"));
    assert_eq!(
        res,
        Ok(CreatePlan {
            key: 7,
            request: request(7, "owner", 0, false),
            next_proposal_id: 8,
            action: Action::CreateMintReq,
        })
    );
}

#[test]
fn create_passes_on_a_failed_read() {
    let res = try_create_mint_request(Err(StdError::not_found("u128")), s("owner"));
    assert_eq!(res, Err(ContractError::Std(StdError::not_found("u128"))));
}

#[test]
fn approve_by_signer_counts_one_more() {
    let res = try_approve_mint_request(
        Ok(signers()),
        s("bob"),
        Ok(false),
        Ok(request(3, "owner", 1, false)),
        3,
    );
    assert_eq!(
        res,
        Ok(ApprovePlan {
            key: 3,
            request: request(3, "owner", 2, false),
            record: ApprovalRecord { signer: s("bob"), proposal_id: 3, approved: true },
            action: Action::ApproveMintRequest,
        })
    );
}

#[test]
fn approve_without_record_counts_as_not_approved() {
    let res = try_approve_mint_request(
        Ok(signers()),
        s("carol"),
        Err(StdError::not_found("bool")),
        Ok(request(0, "owner", 0, false)),
        0,
    );
    assert_eq!(res.unwrap().request.approvals, 1);
}

#[test]
fn approve_by_stranger_is_unauthorised() {
    let res = try_approve_mint_request(
        Ok(signers()),
        s("mallory"),
        Ok(false),
        Ok(request(0, "owner", 0, false)),
        0,
    );
    assert_eq!(res, Err(ContractError::Unauthorised { address: s("mallory") }));
}

#[test]
fn approve_twice_is_refused() {
    let res = try_approve_mint_request(
        Ok(signers()),
        s("alice"),
        Ok(true),
        Ok(request(0, "owner", 1, false)),
        0,
    );
    assert_eq!(res, Err(ContractError::AlreadyApproved { address: s("alice") }));
}

#[test]
fn approve_of_missing_request_passes_on_the_read_error() {
    let res = try_approve_mint_request(
        Ok(signers()),
        s("alice"),
        Ok(false),
        Err(StdError::not_found("request")),
        9,
    );
    assert_eq!(res, Err(ContractError::Std(StdError::not_found("request"))));
}

#[test]
fn approve_without_signer_list_passes_on_the_read_error() {
    let res = try_approve_mint_request(
        Err(StdError::not_found("signers")),
        s("alice"),
        Ok(false),
        Ok(request(0, "owner", 0, false)),
        0,
    );
    assert_eq!(res, Err(ContractError::Std(StdError::not_found("signers"))));
}

#[test]
fn approve_of_request_stored_under_complement_id_is_invalid() {
    // The stored id is compared, bit-inverted, with the requested one.
    let res = try_approve_mint_request(
        Ok(signers()),
        s("alice"),
        Ok(false),
        Ok(request(!5u128, "owner", 0, false)),
        5,
    );
    assert_eq!(res, Err(ContractError::InvalidProposalId { proposal_id: 5 }));
}

#[test]
fn approve_of_request_stored_under_other_id_goes_through() {
    let res = try_approve_mint_request(
        Ok(signers()),
        s("alice"),
        Ok(false),
        Ok(request(4, "owner", 0, false)),
        5,
    );
    let plan = res.unwrap();
    assert_eq!(plan.key, 5);
    assert_eq!(plan.request, request(4, "owner", 1, false));
}

#[test]
fn overflow_check_matches_the_increment() {
    let full = Ok(request(0, "owner", u128::MAX, false));
    assert!(approve_overflows(&Ok(signers()), &s("alice"), &Ok(false), &full, 0));
    assert!(!approve_overflows(&Ok(signers()), &s("mallory"), &Ok(false), &full, 0));
    assert!(!approve_overflows(&Ok(signers()), &s("alice"), &Ok(true), &full, 0));
    let roomy = Ok(request(0, "owner", 2, false));
    assert!(!approve_overflows(&Ok(signers()), &s("alice"), &Ok(false), &roomy, 0));
}

#[test]
fn mint_by_owner_completes_the_request() {
    let res = try_mint(Ok(request(2, "owner", 0, false)), s("owner"), 2);
    assert_eq!(
        res,
        Ok(MintPlan { key: 2, request: request(2, "owner", 0, true), action: Action::Mint })
    );
}

#[test]
fn mint_by_other_is_not_owner() {
    let res = try_mint(Ok(request(2, "owner", 3, false)), s("alice"), 2);
    assert_eq!(res, Err(ContractError::NotOwner {}));
}

#[test]
fn mint_of_completed_request_is_refused() {
    let res = try_mint(Ok(request(2, "owner", 3, true)), s("owner"), 2);
    assert_eq!(res, Err(ContractError::Completed { proposal_id: 2 }));
}

#[test]
fn mint_of_missing_request_passes_on_the_read_error() {
    let res = try_mint(Err(StdError::not_found("request")), s("owner"), 2);
    assert_eq!(res, Err(ContractError::Std(StdError::not_found("request"))));
}

#[test]
fn action_attributes() {
    assert_eq!(Action::CreateMintReq.as_str(), "create_mint_req");
    assert_eq!(Action::ApproveMintRequest.as_str(), "approve_mint_requestr");
    assert_eq!(Action::Mint.as_str(), "mint");
}
