use std::collections::BTreeMap;

use cosmwasm_std::StdError;
use multisig_mint::contract::{
    approve_overflows, instantiate, try_approve_mint_request, try_create_mint_request, try_mint,
};
use multisig_mint::error::ContractError;
use multisig_mint::msg::{ExecuteMsg, InstantiateMsg};
use multisig_mint::state::MintRequestInfo;

/// Storage kept in memory, written the way the contract writes it.
struct Chain {
    proposal_id: Option<u128>,
    signers: Option<Vec<String>>,
    requests: BTreeMap<u128, MintRequestInfo>,
    approvals: BTreeMap<(String, u128), bool>,
}

impl Chain {
    fn new(signers: &[&str]) -> Chain {
        let msg = InstantiateMsg {
            name: "Mint".to_string(),
            signers: signers.iter().map(|a| a.to_string()).collect(),
        };
        let plan = instantiate(msg, "creator".to_string());
        let mut approvals = BTreeMap::new();
        for record in plan.approvals {
            approvals.insert((record.signer, record.proposal_id), record.approved);
        }
        Chain {
            proposal_id: Some(plan.proposal_id),
            signers: Some(plan.signers),
            requests: BTreeMap::new(),
            approvals,
        }
    }

    fn execute(&mut self, sender: &str, msg: ExecuteMsg) -> Result<(), ContractError> {
        let sender = sender.to_string();
        match msg {
            ExecuteMsg::CreateMintRequest {} => {
                let id = self.proposal_id.ok_or_else(|| StdError::not_found("u128"));
                let plan = try_create_mint_request(id, sender)?;
                self.requests.insert(plan.key, plan.request);
                self.proposal_id = Some(plan.next_proposal_id);
            }
            ExecuteMsg::ApproveMintRequest { proposal_id } => {
                let signers = self.signers.clone().ok_or_else(|| StdError::not_found("signers"));
                let approved = self
                    .approvals
                    .get(&(sender.clone(), proposal_id))
                    .copied()
                    .ok_or_else(|| StdError::not_found("bool"));
                let request = self
                    .requests
                    .get(&proposal_id)
                    .cloned()
                    .ok_or_else(|| StdError::not_found("request"));
                assert!(!approve_overflows(&signers, &sender, &approved, &request, proposal_id));
                let plan = try_approve_mint_request(signers, sender, approved, request, proposal_id)?;
                self.requests.insert(plan.key, plan.request);
                self.approvals
                    .insert((plan.record.signer, plan.record.proposal_id), plan.record.approved);
            }
            ExecuteMsg::Mint { proposal_id } => {
                let request = self
                    .requests
                    .get(&proposal_id)
                    .cloned()
                    .ok_or_else(|| StdError::not_found("request"));
                let plan = try_mint(request, sender, proposal_id)?;
                self.requests.insert(plan.key, plan.request);
            }
        }
        Ok(())
    }
}

#[test]
fn signer_cannot_approve_twice() {
    let mut chain = Chain::new(&["alice", "bob"]);
    chain.execute("owner", ExecuteMsg::CreateMintRequest {}).unwrap();
    chain.execute("alice", ExecuteMsg::ApproveMintRequest { proposal_id: 0 }).unwrap();
    assert_eq!(
        chain.execute("alice", ExecuteMsg::ApproveMintRequest { proposal_id: 0 }),
        Err(ContractError::AlreadyApproved { address: "alice".to_string() })
    );
    chain.execute("bob", ExecuteMsg::ApproveMintRequest { proposal_id: 0 }).unwrap();
    assert_eq!(chain.requests[&0].approvals, 2);
}

#[test]
fn request_is_minted_once_and_only_by_its_owner() {
    let mut chain = Chain::new(&["alice"]);
    chain.execute("owner", ExecuteMsg::CreateMintRequest {}).unwrap();
    assert_eq!(
        chain.execute("alice", ExecuteMsg::Mint { proposal_id: 0 }),
        Err(ContractError::NotOwner {})
    );
    // No approval is needed before minting.
    chain.execute("owner", ExecuteMsg::Mint { proposal_id: 0 }).unwrap();
    assert!(chain.requests[&0].completed);
    assert_eq!(
        chain.execute("owner", ExecuteMsg::Mint { proposal_id: 0 }),
        Err(ContractError::Completed { proposal_id: 0 })
    );
}

#[test]
fn each_request_gets_a_fresh_id() {
    let mut chain = Chain::new(&["alice"]);
    chain.execute("a", ExecuteMsg::CreateMintRequest {}).unwrap();
    chain.execute("b", ExecuteMsg::CreateMintRequest {}).unwrap();
    chain.execute("c", ExecuteMsg::CreateMintRequest {}).unwrap();
    assert_eq!(chain.proposal_id, Some(3));
    for (id, owner) in [(0u128, "a"), (1, "b"), (2, "c")] {
        assert_eq!(chain.requests[&id].proposal_id, id);
        assert_eq!(chain.requests[&id].owner, owner);
    }
}

#[test]
fn refused_requests_leave_storage_unchanged() {
    let mut chain = Chain::new(&["alice"]);
    assert!(matches!(
        chain.execute("alice", ExecuteMsg::ApproveMintRequest { proposal_id: 0 }),
        Err(ContractError::Std(_))
    ));
    assert_eq!(chain.approvals.get(&("alice".to_string(), 0)), Some(&false));
    chain.execute("owner", ExecuteMsg::CreateMintRequest {}).unwrap();
    assert_eq!(
        chain.execute("mallory", ExecuteMsg::ApproveMintRequest { proposal_id: 0 }),
        Err(ContractError::Unauthorised { address: "mallory".to_string() })
    );
    assert_eq!(chain.requests[&0].approvals, 0);
    assert!(!chain.approvals.contains_key(&("mallory".to_string(), 0)));
}

#[test]
fn approvals_count_distinct_signers() {
    let mut chain = Chain::new(&["alice", "bob", "carol"]);
    chain.execute("owner", ExecuteMsg::CreateMintRequest {}).unwrap();
    chain.execute("owner", ExecuteMsg::CreateMintRequest {}).unwrap();
    for signer in ["alice", "bob", "carol"] {
        chain.execute(signer, ExecuteMsg::ApproveMintRequest { proposal_id: 1 }).unwrap();
        let _ = chain.execute(signer, ExecuteMsg::ApproveMintRequest { proposal_id: 1 });
    }
    chain.execute("bob", ExecuteMsg::ApproveMintRequest { proposal_id: 0 }).unwrap();
    assert_eq!(chain.requests[&1].approvals, 3);
    assert_eq!(chain.requests[&0].approvals, 1);
}

#[test]
fn never_an_invalid_proposal_id_on_stored_requests() {
    let mut chain = Chain::new(&["alice"]);
    for _ in 0..4 {
        chain.execute("owner", ExecuteMsg::CreateMintRequest {}).unwrap();
    }
    for id in 0..4u128 {
        assert_eq!(chain.execute("alice", ExecuteMsg::ApproveMintRequest { proposal_id: id }), Ok(()));
    }
}

#[test]
fn two_approvals_commute() {
    let mut first = Chain::new(&["alice", "bob"]);
    let mut second = Chain::new(&["alice", "bob"]);
    for chain in [&mut first, &mut second] {
        chain.execute("owner", ExecuteMsg::CreateMintRequest {}).unwrap();
    }
    first.execute("alice", ExecuteMsg::ApproveMintRequest { proposal_id: 0 }).unwrap();
    first.execute("bob", ExecuteMsg::ApproveMintRequest { proposal_id: 0 }).unwrap();
    second.execute("bob", ExecuteMsg::ApproveMintRequest { proposal_id: 0 }).unwrap();
    second.execute("alice", ExecuteMsg::ApproveMintRequest { proposal_id: 0 }).unwrap();
    assert_eq!(first.requests, second.requests);
    assert_eq!(first.approvals, second.approvals);
    assert_eq!(first.proposal_id, second.proposal_id);
    assert_eq!(first.requests[&0].approvals, 2);
}

#[test]
fn executing_never_changes_the_signers() {
    let mut chain = Chain::new(&["alice", "bob"]);
    let signers = chain.signers.clone();
    chain.execute("owner", ExecuteMsg::CreateMintRequest {}).unwrap();
    chain.execute("alice", ExecuteMsg::ApproveMintRequest { proposal_id: 0 }).unwrap();
    let _ = chain.execute("mallory", ExecuteMsg::ApproveMintRequest { proposal_id: 0 });
    chain.execute("owner", ExecuteMsg::Mint { proposal_id: 0 }).unwrap();
    assert_eq!(chain.signers, signers);
}

#[test]
fn stored_requests_only_move_forward() {
    let mut chain = Chain::new(&["alice", "bob"]);
    chain.execute("owner", ExecuteMsg::CreateMintRequest {}).unwrap();
    let before = chain.requests[&0].clone();
    chain.execute("alice", ExecuteMsg::ApproveMintRequest { proposal_id: 0 }).unwrap();
    chain.execute("owner", ExecuteMsg::Mint { proposal_id: 0 }).unwrap();
    chain.execute("bob", ExecuteMsg::ApproveMintRequest { proposal_id: 0 }).unwrap();
    chain.execute("owner", ExecuteMsg::CreateMintRequest {}).unwrap();
    let after = &chain.requests[&0];
    assert_eq!(after.proposal_id, before.proposal_id);
    assert_eq!(after.owner, before.owner);
    assert!(after.approvals >= before.approvals);
    assert!(after.completed);
    assert_eq!(chain.approvals.get(&("alice".to_string(), 0)), Some(&true));
}
