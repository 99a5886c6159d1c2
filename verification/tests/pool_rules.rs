// The pool's rules on concrete values, without a ledger.
use micro_insurance_pool::{
    ClaimOutcome, ClaimStatus, ContractError, MicroInsurancePool, PoolRecord, TokenTransfer,
};

const TOKEN: &str = "CTOKEN";
const ADMIN: &str = "GADMIN";

fn s(x: &str) -> String {
    String::from(x)
}

/// An initialized pool, voting period 100 seconds, with the given members,
/// each paying a premium of 1000.
fn pool_with(members: &[&str]) -> MicroInsurancePool {
    let mut pool = MicroInsurancePool::new();
    pool.initialize(s(ADMIN), s(TOKEN), 100).unwrap();
    for m in members {
        pool.join_pool(s(m), 1000).unwrap();
    }
    pool
}

#[test]
fn uninitialized_pool_refuses_everything() {
    let mut pool = MicroInsurancePool::new();
    assert_eq!(pool.join_pool(s("A"), 10).unwrap_err(), ContractError::NotInitialized);
    assert_eq!(pool.file_claim(s("A"), 10, s("r"), 0), Err(ContractError::NotInitialized));
    assert_eq!(pool.vote_claim(s("A"), 0, true, 0), Err(ContractError::NotInitialized));
    assert!(matches!(pool.execute_claim(0, 0), Err(ContractError::NotInitialized)));
    assert!(matches!(pool.get_claim(0), Err(ContractError::ClaimNotFound)));
    assert_eq!(ContractError::NotInitialized.code(), 11);
    assert!(pool.config().is_none());
}

#[test]
fn initialize_records_settings_once() {
    let mut pool = MicroInsurancePool::new();
    assert_eq!(pool.initialize(s(ADMIN), s(TOKEN), 3600), Ok(()));
    let c = pool.config().unwrap();
    assert_eq!(c.admin, ADMIN);
    assert_eq!(c.token, TOKEN);
    assert_eq!(c.voting_period, 3600);
    assert_eq!(pool.initialize(s("other"), s("other"), 1), Err(ContractError::AlreadyInitialized));
    assert_eq!(pool.config().unwrap().voting_period, 3600);
}

#[test]
fn join_pool_returns_premium_transfer() {
    let mut pool = pool_with(&[]);
    let t = pool.join_pool(s("A"), 250).unwrap();
    match t {
        TokenTransfer::IntoPool { token, from, amount } => {
            assert_eq!(token, TOKEN);
            assert_eq!(from, "A");
            assert_eq!(amount, 250);
        }
        TokenTransfer::OutOfPool { .. } => panic!("a premium flows into the pool"),
    }
    assert!(pool.is_member(&s("A")));
    assert!(!pool.is_member(&s("B")));
    assert_eq!(pool.get_pool_balance(), 250);
}

#[test]
fn join_pool_errors() {
    let mut pool = pool_with(&["A"]);
    assert_eq!(pool.join_pool(s("A"), 10).unwrap_err(), ContractError::AlreadyMember);
    assert_eq!(pool.join_pool(s("B"), 0).unwrap_err(), ContractError::InvalidPremium);
    assert_eq!(pool.join_pool(s("B"), -5).unwrap_err(), ContractError::InvalidPremium);
    assert_eq!(pool.get_member_count(), 1);
    assert_eq!(pool.get_pool_balance(), 1000);
    assert_eq!(ContractError::AlreadyMember.code(), 1);
    assert_eq!(ContractError::InvalidPremium.code(), 3);
}

#[test]
fn file_claim_errors_and_ids() {
    let mut pool = pool_with(&["A", "B"]);
    assert_eq!(pool.file_claim(s("A"), 0, s("r"), 5), Err(ContractError::InvalidClaimAmount));
    assert_eq!(pool.file_claim(s("A"), 2001, s("r"), 5), Err(ContractError::ClaimExceedsPool));
    assert_eq!(pool.file_claim(s("A"), 2000, s("r"), 5), Ok(0));
    assert_eq!(pool.file_claim(s("B"), 10, s("q"), 7), Ok(1));
    assert_eq!(pool.claim_count(), 2);
    let c = pool.get_claim(1).unwrap();
    assert_eq!(c.claimant, "B");
    assert_eq!(c.amount, 10);
    assert_eq!(c.reason, "q");
    assert_eq!(c.deadline, 107);
    assert_eq!(c.status, ClaimStatus::Pending);
    assert!(matches!(pool.get_claim(2), Err(ContractError::ClaimNotFound)));
    assert_eq!(ContractError::InvalidClaimAmount.code(), 4);
    assert_eq!(ContractError::ClaimExceedsPool.code(), 9);
}

#[test]
fn vote_claim_errors() {
    let mut pool = pool_with(&["A", "B", "C"]);
    let id = pool.file_claim(s("A"), 100, s("r"), 0).unwrap();
    assert_eq!(pool.vote_claim(s("X"), id, true, 0), Err(ContractError::NotMember));
    assert_eq!(pool.vote_claim(s("B"), id + 1, true, 0), Err(ContractError::ClaimNotFound));
    assert_eq!(pool.vote_claim(s("A"), id, true, 0), Err(ContractError::SelfVoteNotAllowed));
    // the deadline itself still accepts votes
    assert_eq!(pool.vote_claim(s("B"), id, true, 100), Ok(()));
    assert_eq!(pool.vote_claim(s("C"), id, true, 101), Err(ContractError::VotingPeriodEnded));
    assert_eq!(pool.vote_claim(s("B"), id, false, 100), Err(ContractError::AlreadyVoted));
    let c = pool.get_claim(id).unwrap();
    assert_eq!((c.votes_approve, c.votes_reject), (1, 0));
    assert_eq!(ContractError::ClaimNotFound.code(), 5);
}

#[test]
fn executed_claim_is_final() {
    let mut pool = pool_with(&["A", "B", "C"]);
    let id = pool.file_claim(s("A"), 100, s("r"), 0).unwrap();
    pool.vote_claim(s("B"), id, true, 0).unwrap();
    let outcome = pool.execute_claim(id, 101).unwrap();
    match outcome {
        ClaimOutcome::Approved(TokenTransfer::OutOfPool { token, to, amount }) => {
            assert_eq!(token, TOKEN);
            assert_eq!(to, "A");
            assert_eq!(amount, 100);
        }
        _ => panic!("the claim is approved and paid out"),
    }
    assert!(matches!(pool.execute_claim(id, 500), Err(ContractError::InvalidClaimStatus)));
    assert_eq!(pool.vote_claim(s("C"), id, true, 50), Err(ContractError::InvalidClaimStatus));
    assert_eq!(ContractError::InvalidClaimStatus.code(), 6);
}

#[test]
fn quorum_rule() {
    // five members: four may vote on A's claim, so the quorum is two votes
    let mut pool = pool_with(&["A", "B", "C", "D", "E"]);
    let id = pool.file_claim(s("A"), 100, s("r"), 0).unwrap();
    pool.vote_claim(s("B"), id, true, 0).unwrap();
    assert!(matches!(pool.execute_claim(id, 101), Err(ContractError::QuorumNotReached)));
    pool_claim_still_pending(&pool, id);
    assert_eq!(ContractError::QuorumNotReached.code(), 15);
}

#[test]
fn quorum_is_half_of_eligible_voters_rounded_up() {
    // four members: three may vote on A's claim; one vote is a third of them
    let mut pool = pool_with(&["A", "B", "C", "D"]);
    let id = pool.file_claim(s("A"), 100, s("r"), 0).unwrap();
    pool.vote_claim(s("B"), id, true, 0).unwrap();
    assert!(matches!(pool.execute_claim(id, 101), Err(ContractError::QuorumNotReached)));
    pool_claim_still_pending(&pool, id);
    // two votes of three reach it
    let id = pool.file_claim(s("A"), 100, s("r"), 200).unwrap();
    pool.vote_claim(s("B"), id, true, 200).unwrap();
    pool.vote_claim(s("C"), id, false, 200).unwrap();
    assert!(matches!(pool.execute_claim(id, 301), Ok(ClaimOutcome::Rejected)));
}

fn pool_claim_still_pending(pool: &MicroInsurancePool, id: u64) {
    assert_eq!(pool.get_claim(id).unwrap().status, ClaimStatus::Pending);
}

#[test]
fn tie_and_no_votes_reject() {
    // a lone member: nobody else can vote, and no votes means rejection
    let mut pool = pool_with(&["A"]);
    let id = pool.file_claim(s("A"), 100, s("r"), 0).unwrap();
    assert!(matches!(pool.execute_claim(id, 101), Ok(ClaimOutcome::Rejected)));
    assert_eq!(pool.get_reputation(&s("A")), 90);
    assert_eq!(pool.get_pool_balance(), 1000);

    // with two members, the other member's vote is needed
    let mut pool = pool_with(&["A", "B"]);
    let id = pool.file_claim(s("A"), 100, s("r"), 0).unwrap();
    assert!(matches!(pool.execute_claim(id, 101), Err(ContractError::QuorumNotReached)));

    // a tie rejects too
    let mut pool = pool_with(&["A", "B", "C"]);
    let id = pool.file_claim(s("A"), 100, s("r"), 0).unwrap();
    pool.vote_claim(s("B"), id, true, 0).unwrap();
    pool.vote_claim(s("C"), id, false, 0).unwrap();
    assert!(matches!(pool.execute_claim(id, 101), Ok(ClaimOutcome::Rejected)));
    assert_eq!(pool.get_claim(id).unwrap().status, ClaimStatus::Rejected);
}

#[test]
fn insufficient_funds_when_pool_drained() {
    let mut pool = pool_with(&["A", "B"]);
    let first = pool.file_claim(s("A"), 1500, s("r"), 0).unwrap();
    let second = pool.file_claim(s("B"), 1500, s("r"), 0).unwrap();
    pool.vote_claim(s("B"), first, true, 0).unwrap();
    pool.vote_claim(s("A"), second, true, 0).unwrap();
    assert!(matches!(pool.execute_claim(first, 101), Ok(ClaimOutcome::Approved(_))));
    assert_eq!(pool.get_pool_balance(), 500);
    assert!(matches!(pool.execute_claim(second, 101), Err(ContractError::InsufficientFunds)));
    assert_eq!(pool.get_pool_balance(), 500);
    assert_eq!(ContractError::InsufficientFunds.code(), 8);
}

#[test]
fn reputation_follows_claim_record() {
    let mut pool = pool_with(&["A", "B"]);
    assert_eq!(pool.get_reputation(&s("A")), 100);
    assert_eq!(pool.get_reputation(&s("nobody")), 0);
    for _ in 0..3 {
        let id = pool.file_claim(s("A"), 10, s("r"), 0).unwrap();
        pool.vote_claim(s("B"), id, true, 0).unwrap();
        pool.execute_claim(id, 101).unwrap();
    }
    let id = pool.file_claim(s("A"), 10, s("r"), 0).unwrap();
    pool.vote_claim(s("B"), id, false, 0).unwrap();
    pool.execute_claim(id, 101).unwrap();
    // 100 + 3 * 5 - 10
    assert_eq!(pool.get_reputation(&s("A")), 105);
    assert_eq!(pool.get_reputation(&s("B")), 100);
    // premiums in, payouts out
    assert_eq!(pool.get_pool_balance(), 2000 - 30);
}

#[test]
fn record_round_trip() {
    let mut pool = pool_with(&["A", "B", "C"]);
    let id = pool.file_claim(s("A"), 100, s("r"), 0).unwrap();
    pool.vote_claim(s("B"), id, true, 0).unwrap();
    let record: PoolRecord = pool.into_record();
    assert_eq!(record.members.len(), 3);
    assert_eq!(record.votes.len(), 1);
    let mut pool = MicroInsurancePool::from_record(record).unwrap();
    assert_eq!(pool.get_member_count(), 3);
    assert_eq!(pool.claim_count(), 1);
    assert_eq!(pool.vote_claim(s("B"), id, true, 0), Err(ContractError::AlreadyVoted));
    pool.vote_claim(s("C"), id, true, 0).unwrap();
    assert!(matches!(pool.execute_claim(id, 101), Ok(ClaimOutcome::Approved(_))));
}
