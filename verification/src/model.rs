//! The mathematical model of the pool's stored state, and the meaning of
//! each operation on it: which error it answers, or which state follows.
use vstd::prelude::*;
use crate::types::{ClaimStatus, ClaimView, ContractError, TransferView};

verus! {

/// Reputation score of a member who has just joined.
pub const INITIAL_REPUTATION: i128 = 100;

/// Reputation gained when one of a member's claims is approved.
pub const APPROVAL_REWARD: i128 = 5;

/// Reputation lost when one of a member's claims is rejected.
pub const REJECTION_PENALTY: i128 = 10;

/// Minimum share, in percent, of the eligible voters that must vote on a claim.
pub const QUORUM_PERCENT: u32 = 50;

/// The settings fixed once by initialization.
pub struct ConfigView {
    pub admin: Seq<char>,
    pub token: Seq<char>,
    pub voting_period: nat,
}

/// A registered member: the premium paid and the current reputation.
pub struct MemberView {
    pub account: Seq<char>,
    pub premium: int,
    pub reputation: int,
}

/// A vote cast by `voter` on claim `claim_id`.
pub struct VoteView {
    pub claim_id: nat,
    pub voter: Seq<char>,
    pub approve: bool,
}

/// The whole stored state of a pool.
///
/// Members are listed in the order in which they joined, the claim with id
/// `i` is `claims[i]`, and votes are listed in the order in which they were
/// cast.
pub struct PoolView {
    pub config: Option<ConfigView>,
    pub members: Seq<MemberView>,
    pub claims: Seq<ClaimView>,
    pub votes: Seq<VoteView>,
    pub pool_balance: int,
}

// ---------------------------------------------------------------------------
// Queries on the model
// ---------------------------------------------------------------------------

/// `account` is a registered member.
pub open spec fn is_member(s: PoolView, account: Seq<char>) -> bool {
    exists|i: int| 0 <= i < s.members.len() && #[trigger] s.members[i].account == account
}

/// The position of `account` in the list of members (meaningful only for members).
pub open spec fn member_index(s: PoolView, account: Seq<char>) -> int {
    choose|i: int| 0 <= i < s.members.len() && #[trigger] s.members[i].account == account
}

/// The reputation of `account`: that of the member, or 0 for a non-member.
pub open spec fn reputation_of(s: PoolView, account: Seq<char>) -> int {
    if is_member(s, account) {
        s.members[member_index(s, account)].reputation
    } else {
        0
    }
}

/// `voter` has already voted on claim `claim_id`.
pub open spec fn has_voted(s: PoolView, claim_id: nat, voter: Seq<char>) -> bool {
    exists|i: int|
        0 <= i < s.votes.len() && #[trigger] s.votes[i].claim_id == claim_id && s.votes[i].voter
            == voter
}

/// Number of votes in `votes` on claim `claim_id` whose choice is `approve`.
pub open spec fn count_votes(votes: Seq<VoteView>, claim_id: nat, approve: bool) -> nat
    decreases votes.len(),
{
    if votes.len() == 0 {
        0
    } else {
        count_votes(votes.drop_last(), claim_id, approve) + if votes.last().claim_id == claim_id
            && votes.last().approve == approve {
            1nat
        } else {
            0nat
        }
    }
}

/// Number of claims in `claims` filed by `claimant` that have status `status`.
pub open spec fn count_claims(claims: Seq<ClaimView>, claimant: Seq<char>, status: ClaimStatus) -> nat
    decreases claims.len(),
{
    if claims.len() == 0 {
        0
    } else {
        count_claims(claims.drop_last(), claimant, status) + if claims.last().claimant == claimant
            && claims.last().status == status {
            1nat
        } else {
            0nat
        }
    }
}

/// Sum of the premiums that the members paid.
pub open spec fn total_premiums(members: Seq<MemberView>) -> int
    decreases members.len(),
{
    if members.len() == 0 {
        0
    } else {
        total_premiums(members.drop_last()) + members.last().premium
    }
}

/// Sum of the amounts of the claims that were paid out.
pub open spec fn total_payouts(claims: Seq<ClaimView>) -> int
    decreases claims.len(),
{
    if claims.len() == 0 {
        0
    } else {
        total_payouts(claims.drop_last()) + if claims.last().status == ClaimStatus::Executed {
            claims.last().amount
        } else {
            0
        }
    }
}

/// The reputation that the record of a member's claims gives:
/// the initial score, plus the reward for each approved claim, minus the
/// penalty for each rejected one.
pub open spec fn earned_reputation(claims: Seq<ClaimView>, account: Seq<char>) -> int {
    INITIAL_REPUTATION + APPROVAL_REWARD * count_claims(claims, account, ClaimStatus::Executed)
        - REJECTION_PENALTY * count_claims(claims, account, ClaimStatus::Rejected)
}

/// Number of members who may vote on a claim: all but the claimant.
pub open spec fn eligible_voters(member_count: nat) -> int {
    if member_count > 0 {
        member_count - 1
    } else {
        0
    }
}

/// The quorum rule: `votes` make up at least the quorum share of the voters
/// eligible in a pool of `member_count` members.
pub open spec fn quorum_reached(votes: nat, member_count: nat) -> bool {
    votes * 100 >= eligible_voters(member_count) * QUORUM_PERCENT
}

/// The majority rule: a claim is approved when it has votes and more of them approve.
pub open spec fn is_approved(c: ClaimView) -> bool {
    c.votes_approve + c.votes_reject > 0 && c.votes_approve > c.votes_reject
}

impl PoolView {
    /// The state of a pool that was never initialized.
    pub open spec fn empty() -> PoolView {
        PoolView {
            config: None,
            members: Seq::empty(),
            claims: Seq::empty(),
            votes: Seq::empty(),
            pool_balance: 0,
        }
    }

    /// What every state of the pool satisfies.
    pub open spec fn consistent(self) -> bool {
        // nothing is stored before initialization
        &&& self.config is None ==> {
            &&& self.members.len() == 0
            &&& self.claims.len() == 0
            &&& self.votes.len() == 0
            &&& self.pool_balance == 0
        }
        // each account is registered at most once
        &&& forall|i: int, j: int|
            0 <= i < self.members.len() && 0 <= j < self.members.len() && i != j
                ==> #[trigger] self.members[i].account != #[trigger] self.members[j].account
        // premiums are positive
        &&& forall|i: int| 0 <= i < self.members.len() ==> #[trigger] self.members[i].premium > 0
        // claims are filed by members, for positive amounts
        &&& forall|i: int|
            0 <= i < self.claims.len() ==> is_member(self, #[trigger] self.claims[i].claimant)
                && self.claims[i].amount > 0
        // each vote is cast by a member other than the claimant, on an existing claim
        &&& forall|i: int|
            0 <= i < self.votes.len() ==> {
                &&& #[trigger] self.votes[i].claim_id < self.claims.len()
                &&& is_member(self, self.votes[i].voter)
                &&& self.votes[i].voter != self.claims[self.votes[i].claim_id as int].claimant
            }
        // each member votes at most once on each claim
        &&& forall|i: int, j: int|
            0 <= i < self.votes.len() && 0 <= j < self.votes.len() && i != j
                && #[trigger] self.votes[i].claim_id == #[trigger] self.votes[j].claim_id
                ==> self.votes[i].voter != self.votes[j].voter
        // a claim's tallies count the votes cast on it
        &&& forall|c: int|
            0 <= c < self.claims.len() ==> {
                &&& #[trigger] self.claims[c].votes_approve == count_votes(
                    self.votes,
                    c as nat,
                    true,
                )
                &&& self.claims[c].votes_reject == count_votes(self.votes, c as nat, false)
            }
        // a member's reputation is what the record of the member's claims gives
        &&& forall|i: int|
            0 <= i < self.members.len() ==> #[trigger] self.members[i].reputation
                == earned_reputation(self.claims, self.members[i].account)
        // the pool holds the premiums paid in, less the claims paid out
        &&& self.pool_balance == total_premiums(self.members) - total_payouts(self.claims)
        &&& self.pool_balance >= 0
    }
}

// ---------------------------------------------------------------------------
// Meaning of the operations
// ---------------------------------------------------------------------------

/// The error that `initialize` answers, if any.
pub open spec fn initialize_error(s: PoolView) -> Option<ContractError> {
    if s.config is Some {
        Some(ContractError::AlreadyInitialized)
    } else {
        None
    }
}

/// The state after a successful `initialize`.
pub open spec fn initialize_effect(
    s: PoolView,
    admin: Seq<char>,
    token: Seq<char>,
    voting_period: nat,
) -> PoolView {
    PoolView { config: Some(ConfigView { admin, token, voting_period }), ..s }
}

/// The error that `join_pool` answers, if any.
pub open spec fn join_pool_error(s: PoolView, member: Seq<char>, premium: int) -> Option<
    ContractError,
> {
    if s.config is None {
        Some(ContractError::NotInitialized)
    } else if is_member(s, member) {
        Some(ContractError::AlreadyMember)
    } else if premium <= 0 {
        Some(ContractError::InvalidPremium)
    } else {
        None
    }
}

/// The state after a successful `join_pool`.
pub open spec fn join_pool_effect(s: PoolView, member: Seq<char>, premium: int) -> PoolView {
    PoolView {
        members: s.members.push(
            MemberView { account: member, premium, reputation: INITIAL_REPUTATION as int },
        ),
        pool_balance: s.pool_balance + premium,
        ..s
    }
}

/// The transfer that a successful `join_pool` requires.
pub open spec fn join_pool_transfer(s: PoolView, member: Seq<char>, premium: int) -> TransferView {
    TransferView::IntoPool { token: s.config.unwrap().token, from: member, amount: premium }
}

/// The error that `file_claim` answers, if any.
pub open spec fn file_claim_error(s: PoolView, claimant: Seq<char>, amount: int) -> Option<
    ContractError,
> {
    if s.config is None {
        Some(ContractError::NotInitialized)
    } else if !is_member(s, claimant) {
        Some(ContractError::NotMember)
    } else if amount <= 0 {
        Some(ContractError::InvalidClaimAmount)
    } else if amount > s.pool_balance {
        Some(ContractError::ClaimExceedsPool)
    } else {
        None
    }
}

/// The claim that a successful `file_claim` at time `now` records.
pub open spec fn new_claim(
    s: PoolView,
    claimant: Seq<char>,
    amount: int,
    reason: Seq<char>,
    now: nat,
) -> ClaimView {
    ClaimView {
        claimant,
        amount,
        reason,
        votes_approve: 0,
        votes_reject: 0,
        status: ClaimStatus::Pending,
        deadline: now + s.config.unwrap().voting_period,
    }
}

/// The state after a successful `file_claim`.
pub open spec fn file_claim_effect(
    s: PoolView,
    claimant: Seq<char>,
    amount: int,
    reason: Seq<char>,
    now: nat,
) -> PoolView {
    PoolView { claims: s.claims.push(new_claim(s, claimant, amount, reason, now)), ..s }
}

/// The error that `vote_claim` answers, if any.
pub open spec fn vote_claim_error(s: PoolView, voter: Seq<char>, claim_id: nat, now: nat) -> Option<
    ContractError,
> {
    if s.config is None {
        Some(ContractError::NotInitialized)
    } else if !is_member(s, voter) {
        Some(ContractError::NotMember)
    } else if claim_id >= s.claims.len() {
        Some(ContractError::ClaimNotFound)
    } else if s.claims[claim_id as int].status != ClaimStatus::Pending {
        Some(ContractError::InvalidClaimStatus)
    } else if voter == s.claims[claim_id as int].claimant {
        Some(ContractError::SelfVoteNotAllowed)
    } else if now > s.claims[claim_id as int].deadline {
        Some(ContractError::VotingPeriodEnded)
    } else if has_voted(s, claim_id, voter) {
        Some(ContractError::AlreadyVoted)
    } else {
        None
    }
}

/// The claim after one more vote.
pub open spec fn tally_vote(c: ClaimView, approve: bool) -> ClaimView {
    if approve {
        ClaimView { votes_approve: c.votes_approve + 1, ..c }
    } else {
        ClaimView { votes_reject: c.votes_reject + 1, ..c }
    }
}

/// The state after a successful `vote_claim`.
pub open spec fn vote_claim_effect(s: PoolView, voter: Seq<char>, claim_id: nat, approve: bool) -> PoolView {
    PoolView {
        votes: s.votes.push(VoteView { claim_id, voter, approve }),
        claims: s.claims.update(claim_id as int, tally_vote(s.claims[claim_id as int], approve)),
        ..s
    }
}

/// The error that `execute_claim` answers, if any.
pub open spec fn execute_claim_error(s: PoolView, claim_id: nat, now: nat) -> Option<ContractError> {
    if s.config is None {
        Some(ContractError::NotInitialized)
    } else if claim_id >= s.claims.len() {
        Some(ContractError::ClaimNotFound)
    } else if s.claims[claim_id as int].status != ClaimStatus::Pending {
        Some(ContractError::InvalidClaimStatus)
    } else if now <= s.claims[claim_id as int].deadline {
        Some(ContractError::VotingPeriodActive)
    } else if !quorum_reached(
        s.claims[claim_id as int].votes_approve + s.claims[claim_id as int].votes_reject,
        s.members.len(),
    ) {
        Some(ContractError::QuorumNotReached)
    } else if is_approved(s.claims[claim_id as int]) && s.claims[claim_id as int].amount
        > s.pool_balance {
        Some(ContractError::InsufficientFunds)
    } else {
        None
    }
}

/// The state after a successful `execute_claim`: an approved claim is paid
/// out and its claimant rewarded; a rejected claim stays in the pool and its
/// claimant is penalised.
pub open spec fn execute_claim_effect(s: PoolView, claim_id: nat) -> PoolView {
    let c = s.claims[claim_id as int];
    let k = member_index(s, c.claimant);
    let m = s.members[k];
    if is_approved(c) {
        PoolView {
            claims: s.claims.update(claim_id as int, ClaimView { status: ClaimStatus::Executed, ..c }),
            members: s.members.update(
                k,
                MemberView { reputation: m.reputation + APPROVAL_REWARD, ..m },
            ),
            pool_balance: s.pool_balance - c.amount,
            ..s
        }
    } else {
        PoolView {
            claims: s.claims.update(claim_id as int, ClaimView { status: ClaimStatus::Rejected, ..c }),
            members: s.members.update(
                k,
                MemberView { reputation: m.reputation - REJECTION_PENALTY, ..m },
            ),
            ..s
        }
    }
}

/// The payout of an approved claim.
pub open spec fn payout_transfer(s: PoolView, claim_id: nat) -> TransferView {
    TransferView::OutOfPool {
        token: s.config.unwrap().token,
        to: s.claims[claim_id as int].claimant,
        amount: s.claims[claim_id as int].amount,
    }
}

} // verus!
