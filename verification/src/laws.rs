//! Properties of the pool that relate several operations, or that hold of
//! every state the operations produce.
use vstd::prelude::*;
use crate::lemmas::lemma_votes_bounded;
use crate::model::{
    count_votes, earned_reputation, execute_claim_effect, execute_claim_error, file_claim_effect,
    file_claim_error, has_voted, initialize_effect, initialize_error, is_approved, is_member, join_pool_effect,
    join_pool_error, join_pool_transfer, member_index, payout_transfer, new_claim, quorum_reached, reputation_of, total_payouts,
    total_premiums, vote_claim_effect,
    vote_claim_error, PoolView, APPROVAL_REWARD, INITIAL_REPUTATION, REJECTION_PENALTY,
};
use crate::types::{ClaimStatus, ContractError, TransferView};

verus! {

/// A pool is initialized at most once: once initialization has succeeded,
/// every further attempt is refused with `AlreadyInitialized`.
pub proof fn law_initialize_once(
    s: PoolView,
    admin: Seq<char>,
    token: Seq<char>,
    voting_period: nat,
)
    requires
        initialize_error(s) is None,
    ensures
        initialize_error(initialize_effect(s, admin, token, voting_period)) == Some(
            ContractError::AlreadyInitialized,
        ),
{
}

/// A member's reputation is the initial score, plus the reward for each of
/// the member's claims that was approved, minus the penalty for each that
/// was rejected; an address that is not a member has reputation 0.
pub proof fn law_reputation_record(s: PoolView, account: Seq<char>)
    requires
        s.consistent(),
    ensures
        is_member(s, account) ==> reputation_of(s, account) == earned_reputation(s.claims, account),
        !is_member(s, account) ==> reputation_of(s, account) == 0,
{
    if is_member(s, account) {
        let k = member_index(s, account);
        assert(s.members[k].reputation == earned_reputation(s.claims, s.members[k].account));
    }
}

/// The pool holds exactly the premiums paid in, less the claims paid out,
/// and never less than nothing.
pub proof fn law_pool_balance(s: PoolView)
    requires
        s.consistent(),
    ensures
        s.pool_balance == total_premiums(s.members) - total_payouts(s.claims),
        s.pool_balance >= 0,
{
}

/// A new member starts with a reputation of 100, and the pool grows by the
/// member's premium.
pub proof fn law_join_then_reputation(s: PoolView, member: Seq<char>, premium: int)
    requires
        s.consistent(),
        join_pool_error(s, member, premium) is None,
    ensures
        reputation_of(join_pool_effect(s, member, premium), member) == INITIAL_REPUTATION,
        join_pool_effect(s, member, premium).members.len() == s.members.len() + 1,
        join_pool_effect(s, member, premium).pool_balance == s.pool_balance + premium,
        join_pool_error(join_pool_effect(s, member, premium), member, premium) == Some(
            ContractError::AlreadyMember,
        ),
{
    let t = join_pool_effect(s, member, premium);
    let n = s.members.len() as int;
    assert(t.members[n].account == member);
    assert(is_member(t, member));
    let k = member_index(t, member);
    crate::pool::lemma_join_keeps_consistency(s, member, premium);
    assert(t.members[k].account == t.members[n].account);
}

/// Claim ids are handed out in order: each successful filing receives the
/// number of claims filed before it, and the claim is found under that id.
pub proof fn law_claim_ids_in_order(
    s: PoolView,
    claimant: Seq<char>,
    amount: int,
    reason: Seq<char>,
    now: nat,
)
    requires
        file_claim_error(s, claimant, amount) is None,
    ensures
        file_claim_effect(s, claimant, amount, reason, now).claims.len() == s.claims.len() + 1,
        file_claim_effect(s, claimant, amount, reason, now).claims[s.claims.len() as int]
            == new_claim(s, claimant, amount, reason, now),
        new_claim(s, claimant, amount, reason, now).status == ClaimStatus::Pending,
        forall|i: int|
            0 <= i < s.claims.len() ==> #[trigger] file_claim_effect(
                s,
                claimant,
                amount,
                reason,
                now,
            ).claims[i] == s.claims[i],
{
}

/// A claimant can never vote on the claimant's own claim.
pub proof fn law_claimant_cannot_vote(s: PoolView, claim_id: nat, now: nat)
    requires
        claim_id < s.claims.len(),
    ensures
        vote_claim_error(s, s.claims[claim_id as int].claimant, claim_id, now) is Some,
{
}

/// A member votes at most once on a claim: after a successful vote, every
/// further vote by the same member on the same claim is refused, with
/// `AlreadyVoted` while the voting period lasts.
pub proof fn law_single_vote(
    s: PoolView,
    voter: Seq<char>,
    claim_id: nat,
    approve: bool,
    now: nat,
    later_approve: bool,
    later: nat,
)
    requires
        vote_claim_error(s, voter, claim_id, now) is None,
    ensures
        vote_claim_error(vote_claim_effect(s, voter, claim_id, approve), voter, claim_id, later) is Some,
        later <= s.claims[claim_id as int].deadline ==> vote_claim_error(
            vote_claim_effect(s, voter, claim_id, approve),
            voter,
            claim_id,
            later,
        ) == Some(ContractError::AlreadyVoted),
{
    let t = vote_claim_effect(s, voter, claim_id, approve);
    let n = s.votes.len() as int;
    assert(t.votes[n].claim_id == claim_id && t.votes[n].voter == voter);
    let k = member_index(s, voter);
    assert(t.members[k].account == voter);
}

/// Each vote adds one to exactly one tally of the claim voted on.
pub proof fn law_vote_counts_once(s: PoolView, voter: Seq<char>, claim_id: nat, approve: bool, now: nat)
    requires
        vote_claim_error(s, voter, claim_id, now) is None,
    ensures
        ({
            let c = s.claims[claim_id as int];
            let d = vote_claim_effect(s, voter, claim_id, approve).claims[claim_id as int];
            &&& approve ==> d.votes_approve == c.votes_approve + 1 && d.votes_reject
                == c.votes_reject
            &&& !approve ==> d.votes_reject == c.votes_reject + 1 && d.votes_approve
                == c.votes_approve
            &&& d.status == c.status && d.claimant == c.claimant && d.amount == c.amount
        }),
{
}

/// On any claim, fewer votes are cast than there are members: only members
/// other than the claimant vote, each at most once. The tallies count the
/// votes recorded on the claim.
pub proof fn law_votes_bounded(s: PoolView, claim_id: nat)
    requires
        s.consistent(),
        claim_id < s.claims.len(),
    ensures
        s.claims[claim_id as int].votes_approve == count_votes(s.votes, claim_id, true),
        s.claims[claim_id as int].votes_reject == count_votes(s.votes, claim_id, false),
        s.claims[claim_id as int].votes_approve + s.claims[claim_id as int].votes_reject + 1
            <= s.members.len(),
{
    lemma_votes_bounded(s, claim_id);
}

/// Voting and execution never overlap: at a given time a claim either still
/// accepts votes or can be executed, not both.
pub proof fn law_vote_or_execute(s: PoolView, voter: Seq<char>, claim_id: nat, now: nat)
    ensures
        !(vote_claim_error(s, voter, claim_id, now) is None && execute_claim_error(s, claim_id, now)
            is None),
{
}

/// A claim is executed only after its deadline, with at least the quorum of
/// votes, and it is approved exactly when it has votes and more of them approve.
pub proof fn law_execution_rule(s: PoolView, claim_id: nat, now: nat)
    requires
        execute_claim_error(s, claim_id, now) is None,
    ensures
        now > s.claims[claim_id as int].deadline,
        quorum_reached(
            s.claims[claim_id as int].votes_approve + s.claims[claim_id as int].votes_reject,
            s.members.len(),
        ),
        execute_claim_effect(s, claim_id).claims[claim_id as int].status == if is_approved(
            s.claims[claim_id as int],
        ) {
            ClaimStatus::Executed
        } else {
            ClaimStatus::Rejected
        },
{
}

/// Executing a claim decides it for good: it can then neither be executed
/// again nor receive votes.
pub proof fn law_execute_once(
    s: PoolView,
    claim_id: nat,
    now: nat,
    voter: Seq<char>,
    later: nat,
)
    requires
        execute_claim_error(s, claim_id, now) is None,
    ensures
        execute_claim_error(execute_claim_effect(s, claim_id), claim_id, later) == Some(
            ContractError::InvalidClaimStatus,
        ),
        vote_claim_error(execute_claim_effect(s, claim_id), voter, claim_id, later) is Some,
{
}

/// An approved claim pays its amount out of the pool and raises the
/// claimant's reputation by 5; a rejected claim leaves the pool's funds
/// untouched and lowers the claimant's reputation by 10. No other member's
/// reputation changes.
pub proof fn law_execution_effect(s: PoolView, claim_id: nat, now: nat, other: Seq<char>)
    requires
        s.consistent(),
        execute_claim_error(s, claim_id, now) is None,
    ensures
        ({
            let c = s.claims[claim_id as int];
            let t = execute_claim_effect(s, claim_id);
            &&& is_approved(c) ==> t.pool_balance == s.pool_balance - c.amount
                && reputation_of(t, c.claimant) == reputation_of(s, c.claimant) + APPROVAL_REWARD
            &&& !is_approved(c) ==> t.pool_balance == s.pool_balance && reputation_of(
                t,
                c.claimant,
            ) == reputation_of(s, c.claimant) - REJECTION_PENALTY
            &&& other != c.claimant ==> reputation_of(t, other) == reputation_of(s, other)
        }),
{
    let c = s.claims[claim_id as int];
    let t = execute_claim_effect(s, claim_id);
    assert(is_member(s, c.claimant));
    let k = member_index(s, c.claimant);
    crate::pool::lemma_execute_keeps_consistency(s, claim_id, now);
    assert forall|i: int| 0 <= i < s.members.len() implies #[trigger] t.members[i].account
        == s.members[i].account by {}
    assert forall|a: Seq<char>| is_member(s, a) <==> is_member(t, a) by {
        if is_member(s, a) {
            let j = member_index(s, a);
            assert(t.members[j].account == a);
        }
        if is_member(t, a) {
            let j = member_index(t, a);
            assert(s.members[j].account == a);
        }
    }
    assert(t.members[k].account == c.claimant);
    let kt = member_index(t, c.claimant);
    assert(t.members[kt].account == t.members[k].account);
    if other != c.claimant && is_member(s, other) {
        let j = member_index(s, other);
        let jt = member_index(t, other);
        assert(s.members[j].account == other);
        assert(t.members[jt].account == other);
        assert(t.members[j].account == other);
        assert(j != k);
    }
}

/// Initialization stores exactly the settings it is given, leaves everything
/// else as it was, and succeeds exactly on a pool that was not initialized.
pub proof fn law_initialize_stores_settings(
    s: PoolView,
    admin: Seq<char>,
    token: Seq<char>,
    voting_period: nat,
)
    ensures
        initialize_error(s) is None <==> s.config is None,
        initialize_effect(s, admin, token, voting_period).config matches Some(c) && c.admin == admin
            && c.token == token && c.voting_period == voting_period,
        initialize_effect(s, admin, token, voting_period).members == s.members,
        initialize_effect(s, admin, token, voting_period).claims == s.claims,
        initialize_effect(s, admin, token, voting_period).votes == s.votes,
        initialize_effect(s, admin, token, voting_period).pool_balance == s.pool_balance,
{
}

/// Joining succeeds for every account that is not yet a member, with any
/// positive premium, once the pool is initialized: the account is appended
/// with that premium and a reputation of 100, the pool grows by the premium,
/// and the premium is paid from the account into the pool in the pool's token.
pub proof fn law_join_succeeds(s: PoolView, member: Seq<char>, premium: int)
    requires
        s.config is Some,
        forall|i: int| 0 <= i < s.members.len() ==> #[trigger] s.members[i].account != member,
        premium > 0,
    ensures
        join_pool_error(s, member, premium) is None,
        ({
            let t = join_pool_effect(s, member, premium);
            &&& t.members.len() == s.members.len() + 1
            &&& forall|i: int| 0 <= i < s.members.len() ==> #[trigger] t.members[i] == s.members[i]
            &&& t.members[s.members.len() as int].account == member
            &&& t.members[s.members.len() as int].premium == premium
            &&& t.members[s.members.len() as int].reputation == 100
            &&& t.pool_balance == s.pool_balance + premium
            &&& t.claims == s.claims && t.votes == s.votes && t.config == s.config
        }),
        join_pool_transfer(s, member, premium) == (TransferView::IntoPool {
            token: s.config.unwrap().token,
            from: member,
            amount: premium,
        }),
{
    if is_member(s, member) {
        let k = member_index(s, member);
        assert(s.members[k].account == member);
    }
}

/// Filing succeeds for a member, with a positive amount no larger than the
/// pool's balance, once the pool is initialized. The claim is appended under
/// the next id as pending, with no votes, the claimant, amount and reason
/// given, and a deadline of `now` plus the configured voting period; nothing
/// else changes.
pub proof fn law_file_claim_succeeds(
    s: PoolView,
    claimant: Seq<char>,
    amount: int,
    reason: Seq<char>,
    now: nat,
    k: int,
)
    requires
        s.config is Some,
        0 <= k < s.members.len(),
        s.members[k].account == claimant,
        0 < amount <= s.pool_balance,
    ensures
        file_claim_error(s, claimant, amount) is None,
        ({
            let t = file_claim_effect(s, claimant, amount, reason, now);
            let c = t.claims[s.claims.len() as int];
            &&& t.claims.len() == s.claims.len() + 1
            &&& forall|i: int| 0 <= i < s.claims.len() ==> #[trigger] t.claims[i] == s.claims[i]
            &&& c.claimant == claimant
            &&& c.amount == amount
            &&& c.reason == reason
            &&& c.votes_approve == 0
            &&& c.votes_reject == 0
            &&& c.status == ClaimStatus::Pending
            &&& c.deadline == now + s.config.unwrap().voting_period
            &&& t.members == s.members && t.votes == s.votes && t.config == s.config
            &&& t.pool_balance == s.pool_balance
        }),
{
    assert(is_member(s, claimant));
}

/// Voting succeeds whenever the pool is initialized, the voter is a member,
/// the claim exists and is pending, the voter is not its claimant, the
/// deadline has not passed and the voter has not voted on it yet. The vote
/// is appended to the record and adds one to the approving or the rejecting
/// tally; nothing else changes.
pub proof fn law_vote_succeeds(
    s: PoolView,
    voter: Seq<char>,
    claim_id: nat,
    approve: bool,
    now: nat,
    k: int,
)
    requires
        s.config is Some,
        0 <= k < s.members.len(),
        s.members[k].account == voter,
        claim_id < s.claims.len(),
        s.claims[claim_id as int].status == ClaimStatus::Pending,
        s.claims[claim_id as int].claimant != voter,
        now <= s.claims[claim_id as int].deadline,
        forall|i: int|
            0 <= i < s.votes.len() ==> !(#[trigger] s.votes[i].claim_id == claim_id
                && s.votes[i].voter == voter),
    ensures
        vote_claim_error(s, voter, claim_id, now) is None,
        ({
            let t = vote_claim_effect(s, voter, claim_id, approve);
            let c = s.claims[claim_id as int];
            let d = t.claims[claim_id as int];
            &&& t.votes.len() == s.votes.len() + 1
            &&& forall|i: int| 0 <= i < s.votes.len() ==> #[trigger] t.votes[i] == s.votes[i]
            &&& t.votes[s.votes.len() as int].claim_id == claim_id
            &&& t.votes[s.votes.len() as int].voter == voter
            &&& t.votes[s.votes.len() as int].approve == approve
            &&& t.claims.len() == s.claims.len()
            &&& forall|i: int|
                0 <= i < s.claims.len() && i != claim_id ==> #[trigger] t.claims[i] == s.claims[i]
            &&& d.votes_approve == c.votes_approve + (if approve {
                1int
            } else {
                0int
            })
            &&& d.votes_reject == c.votes_reject + (if approve {
                0int
            } else {
                1int
            })
            &&& d.claimant == c.claimant && d.amount == c.amount && d.status == c.status
                && d.deadline == c.deadline && d.reason == c.reason
            &&& t.members == s.members && t.config == s.config && t.pool_balance == s.pool_balance
        }),
{
    assert(is_member(s, voter));
    if has_voted(s, claim_id, voter) {
        let i = choose|i: int|
            0 <= i < s.votes.len() && #[trigger] s.votes[i].claim_id == claim_id && s.votes[i].voter
                == voter;
        assert(s.votes[i].claim_id == claim_id);
    }
}

/// Deciding a pending claim after its deadline: with fewer votes than half
/// of the members other than the claimant it is refused as lacking quorum;
/// otherwise it is approved exactly when approving votes outnumber rejecting
/// ones. An approved claim is paid its amount out of the pool to the
/// claimant (refused when the pool holds less), marked executed, and raises
/// the claimant's reputation by 5; any other claim is marked rejected, the
/// pool keeps its funds, and the claimant's reputation drops by 10.
pub proof fn law_execute_decides_by_majority(s: PoolView, claim_id: nat, now: nat)
    requires
        s.consistent(),
        s.config is Some,
        claim_id < s.claims.len(),
        s.claims[claim_id as int].status == ClaimStatus::Pending,
        now > s.claims[claim_id as int].deadline,
    ensures
        ({
            let c = s.claims[claim_id as int];
            let n = s.members.len();
            let eligible: int = if n > 0 {
                n - 1
            } else {
                0
            };
            let t = execute_claim_effect(s, claim_id);
            &&& (c.votes_approve + c.votes_reject) * 100 < eligible * 50 ==> execute_claim_error(
                s,
                claim_id,
                now,
            ) == Some(ContractError::QuorumNotReached)
            &&& (c.votes_approve + c.votes_reject) * 100 >= eligible * 50 && c.votes_approve
                > c.votes_reject && c.amount > s.pool_balance ==> execute_claim_error(
                s,
                claim_id,
                now,
            ) == Some(ContractError::InsufficientFunds)
            &&& (c.votes_approve + c.votes_reject) * 100 >= eligible * 50 && c.votes_approve
                > c.votes_reject && c.amount <= s.pool_balance ==> {
                &&& execute_claim_error(s, claim_id, now) is None
                &&& t.claims[claim_id as int].status == ClaimStatus::Executed
                &&& t.pool_balance == s.pool_balance - c.amount
                &&& reputation_of(t, c.claimant) == reputation_of(s, c.claimant) + 5
                &&& payout_transfer(s, claim_id) == (TransferView::OutOfPool {
                    token: s.config.unwrap().token,
                    to: c.claimant,
                    amount: c.amount,
                })
            }
            &&& (c.votes_approve + c.votes_reject) * 100 >= eligible * 50 && c.votes_approve
                <= c.votes_reject ==> {
                &&& execute_claim_error(s, claim_id, now) is None
                &&& t.claims[claim_id as int].status == ClaimStatus::Rejected
                &&& t.pool_balance == s.pool_balance
                &&& reputation_of(t, c.claimant) == reputation_of(s, c.claimant) - 10
            }
            &&& t.claims.len() == s.claims.len()
            &&& t.claims[claim_id as int].claimant == c.claimant
            &&& t.claims[claim_id as int].amount == c.amount
            &&& t.claims[claim_id as int].votes_approve == c.votes_approve
            &&& t.claims[claim_id as int].votes_reject == c.votes_reject
            &&& forall|i: int|
                0 <= i < s.claims.len() && i != claim_id ==> #[trigger] t.claims[i] == s.claims[i]
            &&& t.votes == s.votes && t.config == s.config
        }),
{
    let c = s.claims[claim_id as int];
    if execute_claim_error(s, claim_id, now) is None {
        law_execution_effect(s, claim_id, now, c.claimant);
    }
}

/// Why each operation is refused: an uninitialized pool refuses everything;
/// joining is refused to a member and for a premium that is not positive;
/// filing is refused to a non-member, for an amount that is not positive,
/// and for more than the pool holds; voting is refused to a non-member, on a
/// claim that does not exist or is no longer pending, to the claimant, after
/// the deadline, and a second time; execution is refused for a claim that
/// does not exist or is no longer pending, and before the deadline has
/// passed. Each refusal names the first of these causes in that order.
pub proof fn law_refusals(
    s: PoolView,
    account: Seq<char>,
    amount: int,
    claim_id: nat,
    now: nat,
)
    ensures
        s.config is None ==> {
            &&& join_pool_error(s, account, amount) == Some(ContractError::NotInitialized)
            &&& file_claim_error(s, account, amount) == Some(ContractError::NotInitialized)
            &&& vote_claim_error(s, account, claim_id, now) == Some(ContractError::NotInitialized)
            &&& execute_claim_error(s, claim_id, now) == Some(ContractError::NotInitialized)
        },
        s.config is Some ==> {
            &&& (exists|i: int| 0 <= i < s.members.len() && #[trigger] s.members[i].account == account)
                ==> join_pool_error(s, account, amount) == Some(ContractError::AlreadyMember)
            &&& (forall|i: int| 0 <= i < s.members.len() ==> #[trigger] s.members[i].account != account)
                ==> {
                &&& amount <= 0 ==> join_pool_error(s, account, amount) == Some(
                    ContractError::InvalidPremium,
                )
                &&& file_claim_error(s, account, amount) == Some(ContractError::NotMember)
                &&& vote_claim_error(s, account, claim_id, now) == Some(ContractError::NotMember)
            }
            &&& (exists|i: int| 0 <= i < s.members.len() && #[trigger] s.members[i].account == account)
                ==> {
                &&& amount <= 0 ==> file_claim_error(s, account, amount) == Some(
                    ContractError::InvalidClaimAmount,
                )
                &&& amount > 0 && amount > s.pool_balance ==> file_claim_error(s, account, amount) == Some(
                    ContractError::ClaimExceedsPool,
                )
                &&& claim_id >= s.claims.len() ==> vote_claim_error(s, account, claim_id, now)
                    == Some(ContractError::ClaimNotFound)
                &&& claim_id < s.claims.len() ==> {
                    let c = s.claims[claim_id as int];
                    &&& c.status != ClaimStatus::Pending ==> vote_claim_error(
                        s,
                        account,
                        claim_id,
                        now,
                    ) == Some(ContractError::InvalidClaimStatus)
                    &&& c.status == ClaimStatus::Pending && c.claimant == account
                        ==> vote_claim_error(s, account, claim_id, now) == Some(
                        ContractError::SelfVoteNotAllowed,
                    )
                    &&& c.status == ClaimStatus::Pending && c.claimant != account && now
                        > c.deadline ==> vote_claim_error(s, account, claim_id, now) == Some(
                        ContractError::VotingPeriodEnded,
                    )
                    &&& c.status == ClaimStatus::Pending && c.claimant != account && now
                        <= c.deadline && (exists|i: int|
                        0 <= i < s.votes.len() && #[trigger] s.votes[i].claim_id == claim_id
                            && s.votes[i].voter == account) ==> vote_claim_error(
                        s,
                        account,
                        claim_id,
                        now,
                    ) == Some(ContractError::AlreadyVoted)
                }
            }
            &&& claim_id >= s.claims.len() ==> execute_claim_error(s, claim_id, now) == Some(
                ContractError::ClaimNotFound,
            )
            &&& claim_id < s.claims.len() && s.claims[claim_id as int].status
                != ClaimStatus::Pending ==> execute_claim_error(s, claim_id, now) == Some(
                ContractError::InvalidClaimStatus,
            )
            &&& claim_id < s.claims.len() && s.claims[claim_id as int].status
                == ClaimStatus::Pending && now <= s.claims[claim_id as int].deadline
                ==> execute_claim_error(s, claim_id, now) == Some(
                ContractError::VotingPeriodActive,
            )
        },
{
    if exists|i: int| 0 <= i < s.members.len() && #[trigger] s.members[i].account == account {
        let i = choose|i: int| 0 <= i < s.members.len() && #[trigger] s.members[i].account == account;
        assert(is_member(s, account));
    }
    if claim_id < s.claims.len() && exists|i: int|
        0 <= i < s.votes.len() && #[trigger] s.votes[i].claim_id == claim_id && s.votes[i].voter
            == account {
        assert(has_voted(s, claim_id, account));
    }
}

} // verus!
