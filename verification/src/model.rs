use vstd::prelude::*;

use cosmwasm_std::StdError;

use crate::contract::{
    addresses, approve_checks_pass, approve_outcome, create_outcome, instantiate_outcome,
    mint_outcome, approved_flag, ApprovalView, InstantiateView,
};
use crate::error::ContractError;
use crate::msg::{ExecuteMsg, InstantiateMsg};
use crate::state::RequestView;

verus! {

/// The contract's storage as a mathematical value: what each item and map
/// holds, with `None` or a missing key where nothing was stored.
pub struct Store {
    pub proposal_id: Option<u128>,
    pub name: Option<Seq<char>>,
    pub admin: Option<Seq<char>>,
    pub signers: Option<Seq<Seq<char>>>,
    pub requests: Map<u128, RequestView>,
    pub approvals: Map<(Seq<char>, u128), bool>,
}

/// Storage before the contract is created.
pub open spec fn empty_store() -> Store {
    Store {
        proposal_id: None,
        name: None,
        admin: None,
        signers: None,
        requests: Map::empty(),
        approvals: Map::empty(),
    }
}

/// The host's error for a read that finds nothing.
pub open spec fn missing() -> StdError {
    vstd::pervasive::arbitrary()
}

pub open spec fn read_proposal_id(s: Store) -> Result<u128, StdError> {
    match s.proposal_id {
        Some(id) => Ok(id),
        None => Err(missing()),
    }
}

pub open spec fn read_signers(s: Store) -> Result<Seq<Seq<char>>, StdError> {
    match s.signers {
        Some(list) => Ok(list),
        None => Err(missing()),
    }
}

pub open spec fn read_request(s: Store, key: u128) -> Result<RequestView, StdError> {
    if s.requests.contains_key(key) {
        Ok(s.requests[key])
    } else {
        Err(missing())
    }
}

pub open spec fn read_approval(s: Store, signer: Seq<char>, key: u128) -> Result<bool, StdError> {
    if s.approvals.contains_key((signer, key)) {
        Ok(s.approvals[(signer, key)])
    } else {
        Err(missing())
    }
}

/// The approvals table after writing `records` in order.
pub open spec fn write_approvals(
    table: Map<(Seq<char>, u128), bool>,
    records: Seq<ApprovalView>,
) -> Map<(Seq<char>, u128), bool>
    decreases records.len(),
{
    if records.len() == 0 {
        table
    } else {
        let last = records.last();
        write_approvals(table, records.drop_last()).insert(
            (last.signer, last.proposal_id),
            last.approved,
        )
    }
}

/// Storage after the writes of instantiation.
pub open spec fn apply_instantiate(s: Store, plan: InstantiateView) -> Store {
    Store {
        proposal_id: Some(plan.proposal_id),
        name: Some(plan.name),
        admin: Some(plan.admin),
        signers: Some(plan.signers),
        requests: s.requests,
        approvals: write_approvals(s.approvals, plan.approvals),
    }
}

/// Storage after `sender` creates the contract with `msg`.
pub open spec fn instantiate_step(s: Store, msg: InstantiateMsg, sender: Seq<char>) -> Store {
    apply_instantiate(s, instantiate_outcome(msg.name@, addresses(msg.signers@), sender))
}

/// Storage after a request to create a mint request, or the error that
/// refused it (storage is then left as it was).
pub open spec fn create_step(s: Store, sender: Seq<char>) -> Result<Store, ContractError> {
    match create_outcome(read_proposal_id(s), sender) {
        Ok(plan) => Ok(
            Store {
                proposal_id: Some(plan.next_proposal_id),
                requests: s.requests.insert(plan.key, plan.request),
                ..s
            },
        ),
        Err(e) => Err(e),
    }
}

/// Storage after `sender` approves `key`, or the error that refused it.
pub open spec fn approve_step(s: Store, sender: String, key: u128) -> Result<Store, ContractError> {
    match approve_outcome(
        read_signers(s),
        sender,
        read_approval(s, sender@, key),
        read_request(s, key),
        key,
    ) {
        Ok(plan) => Ok(
            Store {
                requests: s.requests.insert(plan.key, plan.request),
                approvals: s.approvals.insert(
                    (plan.record.signer, plan.record.proposal_id),
                    plan.record.approved,
                ),
                ..s
            },
        ),
        Err(e) => Err(e),
    }
}

/// Storage after `sender` mints `key`, or the error that refused it.
pub open spec fn mint_step(s: Store, sender: Seq<char>, key: u128) -> Result<Store, ContractError> {
    match mint_outcome(read_request(s, key), sender, key) {
        Ok(plan) => Ok(Store { requests: s.requests.insert(plan.key, plan.request), ..s }),
        Err(e) => Err(e),
    }
}

/// Storage after executing `msg` sent by `sender`, or the refusal.
pub open spec fn execute_step(s: Store, sender: String, msg: ExecuteMsg) -> Result<Store, ContractError> {
    match msg {
        ExecuteMsg::CreateMintRequest {  } => create_step(s, sender@),
        ExecuteMsg::ApproveMintRequest { proposal_id } => approve_step(s, sender, proposal_id),
        ExecuteMsg::Mint { proposal_id } => mint_step(s, sender@, proposal_id),
    }
}

/// The signers who have approved request `key`.
pub open spec fn approvers(s: Store, key: u128) -> Set<Seq<char>> {
    Set::new(|a: Seq<char>| s.approvals.contains_key((a, key)) && s.approvals[(a, key)])
}

/// Every stored request sits under its own id, below the next id.
pub open spec fn ids_consistent(s: Store) -> bool {
    &&& s.proposal_id is Some
    &&& forall|k: u128| #[trigger]
        s.requests.contains_key(k) ==> s.requests[k].proposal_id == k && k < s.proposal_id->0
}

/// Only listed signers have approved anything, the list fits in memory, and
/// each request's count of approvals is the number of signers who approved
/// it.
pub open spec fn approval_counts(s: Store) -> bool {
    &&& s.signers is Some
    &&& s.signers->0.len() <= usize::MAX
    &&& forall|a: Seq<char>, k: u128| #[trigger]
        s.approvals.contains_key((a, k)) && s.approvals[(a, k)] ==> s.signers->0.contains(a)
    &&& forall|k: u128| #[trigger]
        s.requests.contains_key(k) ==> s.requests[k].approvals == approvers(s, k).len()
}

/// Approvals are recorded only for stored requests.
pub open spec fn approvals_on_requests(s: Store) -> bool {
    forall|a: Seq<char>, k: u128| #[trigger]
        s.approvals.contains_key((a, k)) && s.approvals[(a, k)] ==> s.requests.contains_key(k)
}

/// What holds of the storage of a created contract, whatever it executed:
/// each request is stored under its own id, below the next id; only
/// signers approve, and only existing requests; and a request's count of
/// approvals is the number of signers who approved it.
pub open spec fn consistent(s: Store) -> bool {
    &&& ids_consistent(s)
    &&& approval_counts(s)
    &&& approvals_on_requests(s)
}

proof fn lemma_cleared_writes_add_no_approval(
    table: Map<(Seq<char>, u128), bool>,
    records: Seq<ApprovalView>,
    key: (Seq<char>, u128),
)
    requires
        forall|i: int| 0 <= i < records.len() ==> !(#[trigger] records[i]).approved,
        write_approvals(table, records).contains_key(key),
        write_approvals(table, records)[key],
    ensures
        table.contains_key(key),
        table[key],
    decreases records.len(),
{
    if records.len() > 0 {
        let last = records.last();
        assert(!records[records.len() - 1].approved);
        assert(key != (last.signer, last.proposal_id));
        let rest = records.drop_last();
        assert forall|i: int| 0 <= i < rest.len() implies !(#[trigger] rest[i]).approved by {
            assert(rest[i] == records[i]);
        }
        lemma_cleared_writes_add_no_approval(table, rest, key);
    }
}

/// The signers who approved `key` are finitely many, and no more than the
/// listed signers.
proof fn lemma_approvers_bounded(s: Store, key: u128)
    requires
        approval_counts(s),
    ensures
        approvers(s, key).finite(),
        approvers(s, key).len() <= s.signers->0.len(),
{
    let list = s.signers->0;
    assert(approvers(s, key).subset_of(list.to_set()));
    vstd::seq_lib::seq_to_set_is_finite(list);
    vstd::set_lib::lemma_len_subset(approvers(s, key), list.to_set());
    list.lemma_cardinality_of_set();
}

/// Creating the contract on empty storage gives consistent storage.
pub proof fn lemma_instantiate_consistent(msg: InstantiateMsg, sender: Seq<char>)
    requires
        msg.signers@.len() <= usize::MAX,
    ensures
        consistent(instantiate_step(empty_store(), msg, sender)),
{
    let t = instantiate_step(empty_store(), msg, sender);
    let plan = instantiate_outcome(msg.name@, addresses(msg.signers@), sender);
    assert forall|a: Seq<char>, k: u128| #[trigger]
        t.approvals.contains_key((a, k)) && t.approvals[(a, k)] implies t.requests.contains_key(k)
        && t.signers->0.contains(a) by {
        lemma_cleared_writes_add_no_approval(Map::empty(), plan.approvals, (a, k));
    }
}

/// Executing any request on consistent storage keeps it consistent, as
/// long as the proposal id can still grow when a request is created.
pub proof fn lemma_execute_keeps_consistent(s: Store, sender: String, msg: ExecuteMsg)
    requires
        consistent(s),
        msg is CreateMintRequest ==> s.proposal_id->0 < u128::MAX,
    ensures
        execute_step(s, sender, msg) matches Ok(t) ==> consistent(t),
{
    match msg {
        ExecuteMsg::CreateMintRequest {  } => lemma_create_keeps_consistent(s, sender@),
        ExecuteMsg::ApproveMintRequest { proposal_id } => lemma_approve_keeps_consistent(
            s,
            sender,
            proposal_id,
        ),
        ExecuteMsg::Mint { proposal_id } => lemma_mint_keeps_consistent(s, sender@, proposal_id),
    }
}

proof fn lemma_create_keeps_consistent(s: Store, sender: Seq<char>)
    requires
        consistent(s),
        s.proposal_id->0 < u128::MAX,
    ensures
        create_step(s, sender) matches Ok(t) ==> consistent(t),
{
    lemma_create_uses_fresh_id(s, sender);
    if let Ok(t) = create_step(s, sender) {
        let id = s.proposal_id->0;
        assert forall|k: u128| #[trigger] t.requests.contains_key(k) implies t.requests[k].approvals
            == approvers(t, k).len() by {
            if k == id {
                assert(approvers(t, k) =~= Set::empty());
            } else {
                assert(approvers(t, k) =~= approvers(s, k));
            }
        }
        assert forall|a: Seq<char>, k: u128| #[trigger]
            t.approvals.contains_key((a, k)) && t.approvals[(a, k)] implies t.requests.contains_key(k)
            && t.signers->0.contains(a) by {
            assert(s.requests.contains_key(k));
        }
    }
}

/// An approval keeps the approval counts right: the approver is a listed
/// signer who had not approved, and the request's count grows by one.
pub proof fn lemma_approve_keeps_approval_counts(s: Store, sender: String, key: u128)
    requires
        approval_counts(s),
    ensures
        approve_step(s, sender, key) matches Ok(t) ==> approval_counts(t),
{
    if let Ok(t) = approve_step(s, sender, key) {
        let who = sender@;
        assert(s.requests.contains_key(key));
        assert(!approvers(s, key).contains(who));
        lemma_approvers_bounded(s, key);
        assert(approvers(t, key) =~= approvers(s, key).insert(who));
        assert forall|k: u128| #[trigger] t.requests.contains_key(k) implies t.requests[k].approvals
            == approvers(t, k).len() by {
            if k != key {
                assert(approvers(t, k) =~= approvers(s, k));
            }
        }
        assert forall|a: Seq<char>, k: u128| #[trigger]
            t.approvals.contains_key((a, k)) && t.approvals[(a, k)] implies t.signers->0.contains(
            a,
        ) by {
            if (a, k) != (who, key) {
                assert(s.approvals.contains_key((a, k)) && s.approvals[(a, k)]);
            }
        }
    }
}

proof fn lemma_approve_keeps_consistent(s: Store, sender: String, key: u128)
    requires
        consistent(s),
    ensures
        approve_step(s, sender, key) matches Ok(t) ==> consistent(t),
{
    lemma_approve_keeps_approval_counts(s, sender, key);
    if let Ok(t) = approve_step(s, sender, key) {
        let who = sender@;
        assert forall|a: Seq<char>, k: u128| #[trigger]
            t.approvals.contains_key((a, k)) && t.approvals[(a, k)] implies t.requests.contains_key(
            k,
        ) by {
            if (a, k) != (who, key) {
                assert(s.approvals.contains_key((a, k)) && s.approvals[(a, k)]);
            }
        }
    }
}

proof fn lemma_mint_keeps_consistent(s: Store, sender: Seq<char>, key: u128)
    requires
        consistent(s),
    ensures
        mint_step(s, sender, key) matches Ok(t) ==> consistent(t),
{
    if let Ok(t) = mint_step(s, sender, key) {
        assert forall|k: u128| #[trigger] t.requests.contains_key(k) implies t.requests[k].approvals
            == approvers(t, k).len() by {
            assert(approvers(t, k) =~= approvers(s, k));
        }
    }
}

/// While the approval counts are right, an approval never meets a request
/// whose count is already the largest: the count stays within the number
/// of signers, so its increment cannot overflow.
pub proof fn lemma_approval_count_never_overflows(s: Store, sender: String, key: u128)
    requires
        approval_counts(s),
    ensures
        approve_checks_pass(
            read_signers(s),
            sender@,
            read_approval(s, sender@, key),
            read_request(s, key),
            key,
        ) ==> read_request(s, key)->Ok_0.approvals < u128::MAX,
{
    if s.requests.contains_key(key) {
        lemma_approvers_bounded(s, key);
    }
}

/// While every request sits under its own id, an approval is never refused
/// for a mismatched proposal id.
pub proof fn lemma_proposal_id_never_invalid(s: Store, sender: String, key: u128)
    requires
        ids_consistent(s),
    ensures
        !(approve_step(s, sender, key) matches Err(ContractError::InvalidProposalId { .. })),
{
    if s.requests.contains_key(key) {
        let id = s.requests[key].proposal_id;
        assert((!id) != id) by (bit_vector);
    }
}

/// A signer whose approval of a request was recorded is refused when
/// approving it again.
pub proof fn lemma_approval_counted_once(s: Store, sender: String, key: u128)
    ensures
        approve_step(s, sender, key) matches Ok(t) ==> approve_step(t, sender, key) == Err::<
            Store,
            ContractError,
        >(ContractError::AlreadyApproved { address: sender }),
{
}

/// A request that was minted is refused when minted again.
pub proof fn lemma_mint_only_once(s: Store, sender: Seq<char>, key: u128)
    ensures
        mint_step(s, sender, key) matches Ok(t) ==> mint_step(t, sender, key) == Err::<
            Store,
            ContractError,
        >(ContractError::Completed { proposal_id: key }),
{
}

/// While every request sits under its own id below the next one, a new
/// request gets an id that no stored request has, the next id is one more,
/// the other requests stay as they were, and requests still sit under
/// their own ids.
pub proof fn lemma_create_uses_fresh_id(s: Store, sender: Seq<char>)
    requires
        ids_consistent(s),
        s.proposal_id->0 < u128::MAX,
    ensures
        create_step(s, sender) matches Ok(t) ==> {
            let id = s.proposal_id->0;
            &&& !s.requests.contains_key(id)
            &&& t.requests.contains_key(id)
            &&& t.requests[id] == (RequestView {
                proposal_id: id,
                owner: sender,
                approvals: 0,
                completed: false,
            })
            &&& t.proposal_id == Some((id + 1) as u128)
            &&& forall|k: u128| k != id ==> #[trigger] t.requests.contains_key(k) == s.requests.contains_key(k)
            &&& forall|k: u128| k != id && s.requests.contains_key(k) ==> #[trigger] t.requests[k] == s.requests[k]
            &&& ids_consistent(t)
        },
{
}

/// Two different signers who have not approved a stored request can
/// approve it in either order: both orders are accepted, leave the same
/// storage, and count two more approvals.
pub proof fn lemma_approvals_commute(s: Store, a: String, b: String, key: u128)
    requires
        a@ != b@,
        s.signers matches Some(list) && list.contains(a@) && list.contains(b@),
        !approved_flag(read_approval(s, a@, key)),
        !approved_flag(read_approval(s, b@, key)),
        s.requests.contains_key(key),
        (!s.requests[key].proposal_id) != key,
        s.requests[key].approvals + 2 <= u128::MAX,
    ensures
        approve_step(s, a, key) matches Ok(ta) && approve_step(ta, b, key) matches Ok(tab)
            && approve_step(s, b, key) matches Ok(tb) && approve_step(tb, a, key) matches Ok(tba)
            && tab == tba && tab.requests[key].approvals == s.requests[key].approvals + 2,
{
    let ta = approve_step(s, a, key)->Ok_0;
    let tb = approve_step(s, b, key)->Ok_0;
    assert(read_approval(ta, b@, key) == read_approval(s, b@, key));
    assert(read_approval(tb, a@, key) == read_approval(s, a@, key));
    let tab = approve_step(ta, b, key)->Ok_0;
    let tba = approve_step(tb, a, key)->Ok_0;
    assert(tab.requests =~= tba.requests);
    assert(tab.approvals =~= tba.approvals);
}

/// Executing a message changes neither the signers, the admin, nor the
/// contract's name.
pub proof fn lemma_execute_keeps_configuration(s: Store, sender: String, msg: ExecuteMsg)
    ensures
        execute_step(s, sender, msg) matches Ok(t) ==> t.signers == s.signers && t.admin == s.admin
            && t.name == s.name,
{
}

/// On consistent storage, executing a message keeps every stored request,
/// under the same id and owner; its approvals only grow and a completed
/// request stays completed; recorded approvals stay recorded; and the next
/// proposal id never goes down.
pub proof fn lemma_execute_keeps_requests(s: Store, sender: String, msg: ExecuteMsg)
    requires
        consistent(s),
        msg is CreateMintRequest ==> s.proposal_id->0 < u128::MAX,
    ensures
        execute_step(s, sender, msg) matches Ok(t) ==> kept_by(s, t),
{
    match msg {
        ExecuteMsg::CreateMintRequest {  } => lemma_create_uses_fresh_id(s, sender@),
        ExecuteMsg::ApproveMintRequest { proposal_id } => lemma_approval_count_never_overflows(
            s,
            sender,
            proposal_id,
        ),
        ExecuteMsg::Mint { proposal_id } => {},
    }
}

/// `t` keeps what `s` stored: each request, under the same id and owner,
/// with no fewer approvals and no completion undone; each recorded
/// approval; and a next proposal id no lower.
pub open spec fn kept_by(s: Store, t: Store) -> bool {
    &&& s.proposal_id matches Some(n) ==> t.proposal_id matches Some(m) && n <= m
    &&& forall|k: u128| #[trigger]
        s.requests.contains_key(k) ==> {
            &&& t.requests.contains_key(k)
            &&& t.requests[k].proposal_id == s.requests[k].proposal_id
            &&& t.requests[k].owner == s.requests[k].owner
            &&& t.requests[k].approvals >= s.requests[k].approvals
            &&& s.requests[k].completed ==> t.requests[k].completed
        }
    &&& forall|a: Seq<char>, k: u128| #[trigger]
        s.approvals.contains_key((a, k)) && s.approvals[(a, k)] ==> t.approvals.contains_key((a, k))
            && t.approvals[(a, k)]
}

/// A refused message leaves storage as it was.
pub proof fn lemma_refusal_changes_nothing(s: Store, sender: String, msg: ExecuteMsg)
    ensures
        execute_step(s, sender, msg) is Err ==> run(s, seq![(sender, msg)]) == s,
{
    let steps = seq![(sender, msg)];
    assert(steps.drop_last() =~= Seq::<(String, ExecuteMsg)>::empty());
    assert(run(s, steps.drop_last()) == s);
    assert(steps.last() == (sender, msg));
}

/// Storage after executing `steps` in order, each a sender and a message;
/// a refused step leaves storage as it was.
pub open spec fn run(s: Store, steps: Seq<(String, ExecuteMsg)>) -> Store
    decreases steps.len(),
{
    if steps.len() == 0 {
        s
    } else {
        let before = run(s, steps.drop_last());
        match execute_step(before, steps.last().0, steps.last().1) {
            Ok(after) => after,
            Err(_) => before,
        }
    }
}

/// Consistent storage stays consistent through any run of executed
/// messages, as long as the proposal id has room for one more per step.
pub proof fn lemma_run_keeps_consistent(s: Store, steps: Seq<(String, ExecuteMsg)>)
    requires
        consistent(s),
        s.proposal_id->0 + steps.len() < u128::MAX,
    ensures
        consistent(run(s, steps)),
        run(s, steps).proposal_id->0 <= s.proposal_id->0 + steps.len(),
    decreases steps.len(),
{
    if steps.len() > 0 {
        let rest = steps.drop_last();
        lemma_run_keeps_consistent(s, rest);
        let before = run(s, rest);
        lemma_execute_keeps_consistent(before, steps.last().0, steps.last().1);
    }
}

/// Every storage the contract reaches, from its creation through any run
/// of executed messages, is consistent.
pub proof fn lemma_reachable_consistent(
    msg: InstantiateMsg,
    creator: Seq<char>,
    steps: Seq<(String, ExecuteMsg)>,
)
    requires
        msg.signers@.len() <= usize::MAX,
        steps.len() < u128::MAX,
    ensures
        consistent(run(instantiate_step(empty_store(), msg, creator), steps)),
{
    lemma_instantiate_consistent(msg, creator);
    lemma_run_keeps_consistent(instantiate_step(empty_store(), msg, creator), steps);
}


/// Whether every step of `steps` asks to create a mint request.
pub open spec fn all_creates(steps: Seq<(String, ExecuteMsg)>) -> bool {
    forall|i: int| 0 <= i < steps.len() ==> (#[trigger] steps[i]).1 is CreateMintRequest
}

/// A run of requests to create mint requests, from next id `n`, is accepted
/// step by step: the `i`-th sender's request is stored under `n + i`, the
/// next id ends at `n` plus the number of steps, and no other request is
/// touched; so no two of them share an id.
pub proof fn lemma_creates_take_consecutive_ids(s: Store, steps: Seq<(String, ExecuteMsg)>)
    requires
        s.proposal_id is Some,
        all_creates(steps),
        s.proposal_id->0 + steps.len() <= u128::MAX,
    ensures
        run(s, steps).proposal_id == Some((s.proposal_id->0 + steps.len()) as u128),
        forall|i: int|
            #![trigger steps[i]]
            0 <= i < steps.len() ==> {
                let id = (s.proposal_id->0 + i) as u128;
                &&& run(s, steps).requests.contains_key(id)
                &&& run(s, steps).requests[id] == (RequestView {
                    proposal_id: id,
                    owner: steps[i].0@,
                    approvals: 0,
                    completed: false,
                })
            },
        forall|k: u128|
            !(s.proposal_id->0 <= k < s.proposal_id->0 + steps.len()) ==> {
                &&& #[trigger] run(s, steps).requests.contains_key(k) == s.requests.contains_key(k)
                &&& s.requests.contains_key(k) ==> run(s, steps).requests[k] == s.requests[k]
            },
    decreases steps.len(),
{
    let n = s.proposal_id->0;
    if steps.len() > 0 {
        let k = steps.len() - 1;
        let rest = steps.drop_last();
        assert forall|i: int| 0 <= i < rest.len() implies (#[trigger] rest[i]).1 is CreateMintRequest by {
            assert(rest[i] == steps[i]);
        }
        lemma_creates_take_consecutive_ids(s, rest);
        let before = run(s, rest);
        assert(steps[k].1 is CreateMintRequest);
        assert(steps.last() == steps[k]);
        let last_id = (n + k) as u128;
        assert(before.proposal_id == Some(last_id));
        assert(execute_step(before, steps[k].0, steps[k].1) == create_step(before, steps[k].0@));
        let after = run(s, steps);
        assert(after.requests == before.requests.insert(
            last_id,
            RequestView { proposal_id: last_id, owner: steps[k].0@, approvals: 0, completed: false },
        ));
        assert(steps.take(k) =~= rest);
        assert forall|i: int|
            #![trigger steps[i]]
            0 <= i < steps.len() implies {
                let id = (n + i) as u128;
                &&& after.requests.contains_key(id)
                &&& after.requests[id] == (RequestView {
                    proposal_id: id,
                    owner: steps[i].0@,
                    approvals: 0,
                    completed: false,
                })
            } by {
            if i < k {
                assert(rest[i] == steps[i]);
            }
        }
    }
}


/// Every step of such a run of creations is accepted.
pub proof fn lemma_creates_all_accepted(s: Store, steps: Seq<(String, ExecuteMsg)>)
    requires
        s.proposal_id is Some,
        all_creates(steps),
        s.proposal_id->0 + steps.len() <= u128::MAX,
    ensures
        forall|i: int|
            #![trigger steps[i]]
            0 <= i < steps.len() ==> execute_step(run(s, steps.take(i)), steps[i].0, steps[i].1) is Ok,
{
    assert forall|i: int|
        #![trigger steps[i]]
        0 <= i < steps.len() implies execute_step(run(s, steps.take(i)), steps[i].0, steps[i].1) is Ok by {
        let prefix = steps.take(i);
        assert forall|j: int| 0 <= j < prefix.len() implies (#[trigger] prefix[j]).1 is CreateMintRequest by {
            assert(prefix[j] == steps[j]);
        }
        lemma_creates_take_consecutive_ids(s, prefix);
    }
}


/// On consistent storage, any run of executed messages keeps every stored
/// request and recorded approval, as `kept_by` says, as long as the
/// proposal id has room for one more per step.
pub proof fn lemma_run_keeps_requests(s: Store, steps: Seq<(String, ExecuteMsg)>)
    requires
        consistent(s),
        s.proposal_id->0 + steps.len() < u128::MAX,
    ensures
        kept_by(s, run(s, steps)),
    decreases steps.len(),
{
    if steps.len() > 0 {
        let rest = steps.drop_last();
        lemma_run_keeps_requests(s, rest);
        lemma_run_keeps_consistent(s, rest);
        let before = run(s, rest);
        let (sender, msg) = steps.last();
        lemma_execute_keeps_requests(before, sender, msg);
        let after = run(s, steps);
        assert(kept_by(before, after));
        assert forall|k: u128| #[trigger] s.requests.contains_key(k) implies {
            &&& after.requests.contains_key(k)
            &&& after.requests[k].proposal_id == s.requests[k].proposal_id
            &&& after.requests[k].owner == s.requests[k].owner
            &&& after.requests[k].approvals >= s.requests[k].approvals
            &&& s.requests[k].completed ==> after.requests[k].completed
        } by {
            assert(before.requests.contains_key(k));
        }
        assert forall|a: Seq<char>, k: u128| #[trigger]
            s.approvals.contains_key((a, k)) && s.approvals[(a, k)] implies after.approvals.contains_key(
            (a, k),
        ) && after.approvals[(a, k)] by {
            assert(before.approvals.contains_key((a, k)) && before.approvals[(a, k)]);
        }
    }
}


/// Writing cleared approval records leaves a key untouched unless a record
/// names it, in which case the key holds `false`.
proof fn lemma_cleared_writes(
    table: Map<(Seq<char>, u128), bool>,
    records: Seq<ApprovalView>,
    key: (Seq<char>, u128),
)
    requires
        forall|i: int| 0 <= i < records.len() ==> !(#[trigger] records[i]).approved,
    ensures
        (exists|i: int| 0 <= i < records.len() && (#[trigger] records[i]).signer == key.0
            && records[i].proposal_id == key.1) ==> write_approvals(table, records).contains_key(key)
            && !write_approvals(table, records)[key],
        !(exists|i: int| 0 <= i < records.len() && (#[trigger] records[i]).signer == key.0
            && records[i].proposal_id == key.1) ==> write_approvals(table, records).contains_key(key)
            == table.contains_key(key) && (table.contains_key(key) ==> write_approvals(
            table,
            records,
        )[key] == table[key]),
    decreases records.len(),
{
    if records.len() > 0 {
        let n = records.len() - 1;
        let rest = records.drop_last();
        assert(!records[n].approved);
        assert forall|i: int| 0 <= i < rest.len() implies !(#[trigger] rest[i]).approved by {
            assert(rest[i] == records[i]);
        }
        lemma_cleared_writes(table, rest, key);
        if exists|i: int| 0 <= i < records.len() && (#[trigger] records[i]).signer == key.0
            && records[i].proposal_id == key.1 {
            let i = choose|i: int| 0 <= i < records.len() && (#[trigger] records[i]).signer == key.0
                && records[i].proposal_id == key.1;
            if i < n {
                assert(rest[i] == records[i]);
            }
        } else {
            assert forall|i: int| 0 <= i < rest.len() implies !((#[trigger] rest[i]).signer == key.0
                && rest[i].proposal_id == key.1) by {
                assert(rest[i] == records[i]);
            }
            assert(!(records[n].signer == key.0 && records[n].proposal_id == key.1));
        }
    }
}

/// Creating the contract stores exactly the given signers, in their order,
/// whoever creates it and however many they are; the creator becomes the
/// admin; the name is kept; proposal ids start at 0; each listed signer
/// holds a cleared approval of proposal 0; every other approval record and
/// every stored request stays as it was.
pub proof fn lemma_instantiate_stores_what_it_is_given(s: Store, msg: InstantiateMsg, sender: Seq<char>)
    ensures
        ({
            let t = instantiate_step(s, msg, sender);
            &&& t.signers == Some(addresses(msg.signers@))
            &&& t.signers->0.len() == msg.signers@.len()
            &&& forall|i: int|
                0 <= i < msg.signers@.len() ==> t.signers->0[i] == (#[trigger] msg.signers@[i])@
            &&& t.admin == Some(sender)
            &&& t.name == Some(msg.name@)
            &&& t.proposal_id == Some(0u128)
            &&& t.requests == s.requests
            &&& forall|i: int|
                0 <= i < msg.signers@.len() ==> t.approvals.contains_key(
                    ((#[trigger] msg.signers@[i])@, 0u128),
                ) && !t.approvals[(msg.signers@[i]@, 0u128)]
            &&& forall|a: Seq<char>, k: u128|
                !(k == 0 && addresses(msg.signers@).contains(a)) ==> (#[trigger] t.approvals.contains_key(
                    (a, k),
                ) == s.approvals.contains_key((a, k))) && (s.approvals.contains_key((a, k))
                    ==> t.approvals[(a, k)] == s.approvals[(a, k)])
        }),
{
    let t = instantiate_step(s, msg, sender);
    let list = addresses(msg.signers@);
    let records = instantiate_outcome(msg.name@, list, sender).approvals;
    assert forall|i: int| 0 <= i < records.len() implies !(#[trigger] records[i]).approved by {}
    assert forall|i: int| 0 <= i < msg.signers@.len() implies t.approvals.contains_key(
        ((#[trigger] msg.signers@[i])@, 0u128),
    ) && !t.approvals[(msg.signers@[i]@, 0u128)] by {
        assert(records[i].signer == msg.signers@[i]@ && records[i].proposal_id == 0);
        lemma_cleared_writes(s.approvals, records, (msg.signers@[i]@, 0u128));
    }
    assert forall|a: Seq<char>, k: u128|
        !(k == 0 && addresses(msg.signers@).contains(a)) implies (#[trigger] t.approvals.contains_key(
        (a, k),
    ) == s.approvals.contains_key((a, k))) && (s.approvals.contains_key((a, k)) ==> t.approvals[(
    a,
    k,
    )] == s.approvals[(a, k)]) by {
        if exists|i: int| 0 <= i < records.len() && (#[trigger] records[i]).signer == a
            && records[i].proposal_id == k {
            let i = choose|i: int| 0 <= i < records.len() && (#[trigger] records[i]).signer == a
                && records[i].proposal_id == k;
            assert(list[i] == a);
        }
        lemma_cleared_writes(s.approvals, records, (a, k));
    }
}

/// An accepted approval comes from a listed signer who had not approved
/// the request, of a request that is stored; it counts exactly one more
/// approval and changes nothing else of the request, records the signer's
/// approval, and leaves every other request, approval record, the
/// signers, admin, name and next id as they were.
pub proof fn lemma_approval_changes_only_its_count(s: Store, sender: String, key: u128)
    ensures
        approve_step(s, sender, key) matches Ok(t) ==> {
            let r = s.requests[key];
            &&& s.signers matches Some(list) && list.contains(sender@)
            &&& !(s.approvals.contains_key((sender@, key)) && s.approvals[(sender@, key)])
            &&& s.requests.contains_key(key)
            &&& t.requests.contains_key(key)
            &&& t.requests[key].proposal_id == r.proposal_id
            &&& t.requests[key].owner == r.owner
            &&& t.requests[key].completed == r.completed
            &&& r.approvals < u128::MAX ==> t.requests[key].approvals == r.approvals + 1
            &&& t.approvals == s.approvals.insert((sender@, key), true)
            &&& forall|k: u128| k != key ==> #[trigger] t.requests.contains_key(k) == s.requests.contains_key(k)
            &&& forall|k: u128| k != key && s.requests.contains_key(k) ==> #[trigger] t.requests[k] == s.requests[k]
            &&& t.signers == s.signers && t.admin == s.admin && t.name == s.name
            &&& t.proposal_id == s.proposal_id
        },
{
}

/// An approval never decides whether the request can be minted: the
/// owner's mint is accepted after it exactly when it was before it.
pub proof fn lemma_approval_keeps_mint_open(s: Store, sender: String, key: u128, owner: Seq<char>)
    ensures
        approve_step(s, sender, key) matches Ok(t) ==> (mint_step(t, owner, key) is Ok <==> mint_step(
            s,
            owner,
            key,
        ) is Ok),
{
}

/// A mint is accepted exactly when the request is stored, the sender is
/// its owner, and it is not completed yet; it then marks the request
/// completed, changes nothing else of it, and leaves every other request,
/// the approval records, signers, admin, name and next id as they were.
pub proof fn lemma_mint_only_by_owner(s: Store, sender: Seq<char>, key: u128)
    ensures
        mint_step(s, sender, key) is Ok <==> (s.requests.contains_key(key) && s.requests[key].owner
            == sender && !s.requests[key].completed),
        mint_step(s, sender, key) matches Ok(t) ==> {
            &&& t.requests == s.requests.insert(
                key,
                RequestView {
                    proposal_id: s.requests[key].proposal_id,
                    owner: s.requests[key].owner,
                    approvals: s.requests[key].approvals,
                    completed: true,
                },
            )
            &&& t.approvals == s.approvals
            &&& t.signers == s.signers && t.admin == s.admin && t.name == s.name
            &&& t.proposal_id == s.proposal_id
        },
{
}


/// Creating a request is accepted exactly when a next id is stored (a
/// missing one is the host's error); it stores a fresh request of the
/// sender under that id, with no approvals and not completed, moves the
/// next id on by one, and leaves the approval records, signers, admin and
/// name as they were.
pub proof fn lemma_create_outcomes(s: Store, sender: Seq<char>)
    ensures
        create_step(s, sender) is Ok <==> s.proposal_id is Some,
        s.proposal_id is None ==> create_step(s, sender) matches Err(ContractError::Std(_)),
        create_step(s, sender) matches Ok(t) ==> {
            let id = s.proposal_id->0;
            &&& t.requests == s.requests.insert(
                id,
                RequestView { proposal_id: id, owner: sender, approvals: 0, completed: false },
            )
            &&& id < u128::MAX ==> t.proposal_id == Some((id + 1) as u128)
            &&& t.approvals == s.approvals
            &&& t.signers == s.signers && t.admin == s.admin && t.name == s.name
        },
{
}

/// Why an approval is refused, check by check in the contract's order: no
/// stored signer list (the host's error); a sender who is not listed; a
/// sender who already approved; no stored request (the host's error); a
/// stored id whose bitwise complement is the requested id. With none of
/// these the approval is accepted.
pub proof fn lemma_approve_refusals(s: Store, sender: String, key: u128)
    ensures
        ({
            let listed = s.signers is Some && s.signers->0.contains(sender@);
            let approved = s.approvals.contains_key((sender@, key)) && s.approvals[(sender@, key)];
            let stored = s.requests.contains_key(key);
            &&& s.signers is None ==> (approve_step(s, sender, key) matches Err(ContractError::Std(_)))
            &&& s.signers is Some && !listed ==> approve_step(s, sender, key) == Err::<
                Store,
                ContractError,
            >(ContractError::Unauthorised { address: sender })
            &&& listed && approved ==> approve_step(s, sender, key) == Err::<Store, ContractError>(
                ContractError::AlreadyApproved { address: sender },
            )
            &&& listed && !approved && !stored ==> (approve_step(s, sender, key) matches Err(
                ContractError::Std(_),
            ))
            &&& listed && !approved && stored && (!s.requests[key].proposal_id) == key
                ==> approve_step(s, sender, key) == Err::<Store, ContractError>(
                ContractError::InvalidProposalId { proposal_id: key },
            )
            &&& listed && !approved && stored && (!s.requests[key].proposal_id) != key
                ==> approve_step(s, sender, key) is Ok
        }),
{
}

/// Why a mint is refused, check by check in the contract's order: no
/// stored request (the host's error); a sender who is not the owner; a
/// request already completed.
pub proof fn lemma_mint_refusals(s: Store, sender: Seq<char>, key: u128)
    ensures
        !s.requests.contains_key(key) ==> mint_step(s, sender, key) matches Err(ContractError::Std(_)),
        s.requests.contains_key(key) && s.requests[key].owner != sender ==> mint_step(s, sender, key)
            == Err::<Store, ContractError>(ContractError::NotOwner {  }),
        s.requests.contains_key(key) && s.requests[key].owner == sender && s.requests[key].completed
            ==> mint_step(s, sender, key) == Err::<Store, ContractError>(
            ContractError::Completed { proposal_id: key },
        ),
{
}

} // verus!
