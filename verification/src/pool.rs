//! The insurance pool: its stored state and the operations on it.
use vstd::prelude::*;
use crate::lemmas::{
    lemma_count_claims_absent, lemma_count_claims_bound, lemma_count_claims_push,
    lemma_count_claims_update, lemma_count_votes_absent, lemma_count_votes_push,
    lemma_total_payouts_push, lemma_total_payouts_update, lemma_total_premiums_push,
    lemma_total_premiums_update, lemma_votes_bounded,
};
use crate::model::{
    count_votes, earned_reputation, execute_claim_effect, execute_claim_error, file_claim_effect,
    file_claim_error, has_voted, initialize_effect, initialize_error, is_approved, is_member,
    join_pool_effect, join_pool_error, join_pool_transfer, member_index, new_claim,
    payout_transfer, reputation_of, tally_vote, vote_claim_effect, vote_claim_error, ConfigView,
    MemberView, PoolView, VoteView, APPROVAL_REWARD, INITIAL_REPUTATION, QUORUM_PERCENT,
    REJECTION_PENALTY,
};
use crate::types::{
    Claim, ClaimOutcome, ClaimStatus, ClaimView, ContractError, OutcomeView, TokenTransfer,
};

verus! {

/// The settings fixed once by initialization.
#[derive(Clone, Debug)]
pub struct PoolConfig {
    /// The admin who initialized the pool.
    pub admin: String,
    /// The token contract used for premiums and payouts.
    pub token: String,
    /// How long, in seconds, voting on a claim stays open.
    pub voting_period: u64,
}

impl View for PoolConfig {
    type V = ConfigView;

    open spec fn view(&self) -> ConfigView {
        ConfigView {
            admin: self.admin@,
            token: self.token@,
            voting_period: self.voting_period as nat,
        }
    }
}

/// A registered member of the pool.
#[derive(Clone, Debug)]
pub struct Member {
    pub account: String,
    /// The premium the member paid on joining.
    pub premium: i128,
    pub reputation: i128,
}

impl View for Member {
    type V = MemberView;

    open spec fn view(&self) -> MemberView {
        MemberView {
            account: self.account@,
            premium: self.premium as int,
            reputation: self.reputation as int,
        }
    }
}

/// A vote on a claim.
#[derive(Clone, Debug)]
pub struct Vote {
    pub claim_id: u64,
    pub voter: String,
    pub approve: bool,
}

impl View for Vote {
    type V = VoteView;

    open spec fn view(&self) -> VoteView {
        VoteView { claim_id: self.claim_id as nat, voter: self.voter@, approve: self.approve }
    }
}

/// A decentralized insurance pool: members pay premiums, file claims,
/// vote on each other's claims, and approved claims are paid from the pool.
pub struct MicroInsurancePool {
    config: Option<PoolConfig>,
    members: Vec<Member>,
    /// Number of registered members (used for quorum calculations).
    member_count: u32,
    /// Claim with id `i` is `claims[i]`.
    claims: Vec<Claim>,
    /// Id that the next claim receives.
    claim_counter: u64,
    votes: Vec<Vote>,
    /// Total funds available in the pool.
    pool_balance: i128,
}

/// The stored contents of a pool, in a form that can be saved between
/// invocations and loaded again.
pub struct PoolRecord {
    pub config: Option<PoolConfig>,
    pub members: Vec<Member>,
    pub claims: Vec<Claim>,
    pub votes: Vec<Vote>,
    pub pool_balance: i128,
}

impl View for PoolRecord {
    type V = PoolView;

    open spec fn view(&self) -> PoolView {
        PoolView {
            config: config_view(self.config),
            members: self.members@.map_values(|m: Member| m@),
            claims: self.claims@.map_values(|c: Claim| c@),
            votes: self.votes@.map_values(|v: Vote| v@),
            pool_balance: self.pool_balance as int,
        }
    }
}

/// The model of the optional settings.
pub open spec fn config_view(c: Option<PoolConfig>) -> Option<ConfigView> {
    match c {
        Some(c) => Some(c@),
        None => None,
    }
}

impl View for MicroInsurancePool {
    type V = PoolView;

    closed spec fn view(&self) -> PoolView {
        PoolView {
            config: config_view(self.config),
            members: self.members@.map_values(|m: Member| m@),
            claims: self.claims@.map_values(|c: Claim| c@),
            votes: self.votes@.map_values(|v: Vote| v@),
            pool_balance: self.pool_balance as int,
        }
    }
}

impl MicroInsurancePool {
    /// The pool's representation is consistent with its model, and the model
    /// satisfies the pool's invariant.
    pub closed spec fn wf(&self) -> bool {
        &&& self@.consistent()
        &&& self.member_count as int == self.members@.len()
        &&& self.claim_counter as int == self.claims@.len()
    }

    /// A well-formed pool satisfies the invariant, and its member list and
    /// claim list fit the counters that number them.
    pub proof fn lemma_wf(&self)
        requires
            self.wf(),
        ensures
            self@.consistent(),
            self@.members.len() <= u32::MAX,
            self@.claims.len() <= u64::MAX,
    {
    }

    /// A pool that has not been initialized yet.
    pub fn new() -> (pool: Self)
        ensures
            pool.wf(),
            pool@ == PoolView::empty(),
    {
        let pool = MicroInsurancePool {
            config: None,
            members: Vec::new(),
            member_count: 0,
            claims: Vec::new(),
            claim_counter: 0,
            votes: Vec::new(),
            pool_balance: 0,
        };
        assert(pool@.members =~= Seq::empty());
        assert(pool@.claims =~= Seq::empty());
        assert(pool@.votes =~= Seq::empty());
        pool
    }

    /// The stored contents of the pool.
    pub fn into_record(self) -> (r: PoolRecord)
        ensures
            r@ == self@,
    {
        PoolRecord {
            config: self.config,
            members: self.members,
            claims: self.claims,
            votes: self.votes,
            pool_balance: self.pool_balance,
        }
    }

    /// The pool whose stored contents are `record`; `None` when it holds
    /// more members or claims than the counters that number them can count.
    /// A record saved from a pool loads as a pool with the same contents.
    pub fn from_record(record: PoolRecord) -> (r: Option<Self>)
        ensures
            match r {
                Some(p) => {
                    &&& p@ == record@
                    &&& record@.consistent() ==> p.wf()
                },
                None => record@.members.len() > u32::MAX || record@.claims.len() > u64::MAX,
            },
    {
        let members_len = record.members.len();
        let claims_len = record.claims.len();
        if members_len > u32::MAX as usize || claims_len as u128 > u64::MAX as u128 {
            return None;
        }
        Some(
            MicroInsurancePool {
                config: record.config,
                members: record.members,
                member_count: members_len as u32,
                claims: record.claims,
                claim_counter: claims_len as u64,
                votes: record.votes,
                pool_balance: record.pool_balance,
            },
        )
    }

    /// Ensure the pool has been initialized before use.
    fn require_initialized(&self) -> (r: Result<(), ContractError>)
        ensures
            r is Ok <==> self@.config is Some,
            r is Err ==> r == Err::<(), ContractError>(ContractError::NotInitialized),
    {
        if self.config.is_none() {
            return Err(ContractError::NotInitialized);
        }
        Ok(())
    }

    /// Retrieve the stored token address.
    fn get_token_address(&self) -> (r: Result<String, ContractError>)
        ensures
            match self@.config {
                Some(c) => r is Ok && r->Ok_0@ == c.token,
                None => r == Err::<String, ContractError>(ContractError::NotInitialized),
            },
    {
        match &self.config {
            Some(c) => Ok(c.token.clone()),
            None => Err(ContractError::NotInitialized),
        }
    }

    /// Initialize the pool with admin, token address, and voting period.
    /// Can only be done once.
    pub fn initialize(&mut self, admin: String, token: String, voting_period: u64) -> (r: Result<
        (),
        ContractError,
    >)
        requires
            old(self).wf(),
        ensures
            final(self).wf(),
            match initialize_error(old(self)@) {
                Some(e) => r == Err::<(), ContractError>(e) && final(self)@ == old(self)@,
                None => r is Ok && final(self)@ == initialize_effect(
                    old(self)@,
                    admin@,
                    token@,
                    voting_period as nat,
                ),
            },
    {
        if self.config.is_some() {
            return Err(ContractError::AlreadyInitialized);
        }
        self.config = Some(PoolConfig { admin, token, voting_period });
        self.member_count = 0;
        Ok(())
    }

    /// Register `member` in the pool with a premium of `premium`.
    ///
    /// On success the member's premium is recorded, the member's reputation
    /// starts at 100, the pool balance grows by the premium, and the returned
    /// transfer moves the premium from the member into the pool.
    pub fn join_pool(&mut self, member: String, premium: i128) -> (r: Result<
        TokenTransfer,
        ContractError,
    >)
        requires
            old(self).wf(),
            join_pool_error(old(self)@, member@, premium as int) is None ==> {
                &&& old(self)@.pool_balance + premium <= i128::MAX
                &&& old(self)@.members.len() < u32::MAX
            },
        ensures
            final(self).wf(),
            match join_pool_error(old(self)@, member@, premium as int) {
                Some(e) => r == Err::<TokenTransfer, ContractError>(e) && final(self)@ == old(
                    self,
                )@,
                None => {
                    &&& r is Ok
                    &&& r->Ok_0@ == join_pool_transfer(old(self)@, member@, premium as int)
                    &&& final(self)@ == join_pool_effect(old(self)@, member@, premium as int)
                },
            },
    {
        match self.require_initialized() {
            Ok(()) => {},
            Err(e) => return Err(e),
        }
        if self.find_member(&member).is_some() {
            return Err(ContractError::AlreadyMember);
        }
        if premium <= 0 {
            return Err(ContractError::InvalidPremium);
        }
        let token = match self.get_token_address() {
            Ok(t) => t,
            Err(e) => return Err(e),
        };
        let ghost s0 = self@;
        let transfer = TokenTransfer::IntoPool { token, from: member.clone(), amount: premium };
        let new_member = Member { account: member, premium, reputation: INITIAL_REPUTATION };
        self.members.push(new_member);
        self.pool_balance = self.pool_balance + premium;
        self.member_count = self.member_count + 1;
        proof {
            let s1 = self@;
            assert(s1.members =~= s0.members.push(new_member@));
            assert(s1.claims =~= s0.claims);
            assert(s1.votes =~= s0.votes);
            assert(s1 == join_pool_effect(s0, new_member@.account, premium as int));
            lemma_join_keeps_consistency(s0, new_member@.account, premium as int);
        }
        Ok(transfer)
    }

    /// File a claim of `amount` by `claimant`, at ledger time `now`.
    ///
    /// On success the claim is recorded as pending under the next claim id,
    /// which is returned, with a voting deadline of `now` plus the voting
    /// period.
    pub fn file_claim(&mut self, claimant: String, amount: i128, reason: String, now: u64) -> (r:
        Result<u64, ContractError>)
        requires
            old(self).wf(),
            file_claim_error(old(self)@, claimant@, amount as int) is None ==> {
                &&& old(self)@.claims.len() < u64::MAX
                &&& now + old(self)@.config.unwrap().voting_period <= u64::MAX
            },
        ensures
            final(self).wf(),
            match file_claim_error(old(self)@, claimant@, amount as int) {
                Some(e) => r == Err::<u64, ContractError>(e) && final(self)@ == old(self)@,
                None => {
                    &&& r == Ok::<u64, ContractError>(old(self)@.claims.len() as u64)
                    &&& final(self)@ == file_claim_effect(
                        old(self)@,
                        claimant@,
                        amount as int,
                        reason@,
                        now as nat,
                    )
                },
            },
    {
        match self.require_initialized() {
            Ok(()) => {},
            Err(e) => return Err(e),
        }
        if self.find_member(&claimant).is_none() {
            return Err(ContractError::NotMember);
        }
        if amount <= 0 {
            return Err(ContractError::InvalidClaimAmount);
        }
        if amount > self.pool_balance {
            return Err(ContractError::ClaimExceedsPool);
        }
        let ghost s0 = self@;
        let claim_id = self.claim_counter;
        let voting_period = match &self.config {
            Some(c) => c.voting_period,
            None => return Err(ContractError::NotInitialized),
        };
        let deadline = now + voting_period;
        let claim = Claim {
            claimant,
            amount,
            reason,
            votes_approve: 0,
            votes_reject: 0,
            status: ClaimStatus::Pending,
            deadline,
        };
        self.claims.push(claim);
        self.claim_counter = claim_id + 1;
        proof {
            let s1 = self@;
            assert(s1.claims =~= s0.claims.push(claim@));
            assert(s1.members =~= s0.members);
            assert(s1.votes =~= s0.votes);
            lemma_file_keeps_consistency(s0, claim@.claimant, amount as int, claim@.reason, now as nat);
        }
        Ok(claim_id)
    }

    /// `voter` has already voted on claim `claim_id`.
    fn find_vote(&self, claim_id: u64, voter: &String) -> (r: bool)
        ensures
            r == has_voted(self@, claim_id as nat, voter@),
    {
        let mut i: usize = 0;
        while i < self.votes.len()
            invariant
                i <= self.votes@.len(),
                forall|j: int|
                    0 <= j < i ==> !(self.votes@[j].claim_id == claim_id && self.votes@[j].voter@
                        == voter@),
            decreases self.votes@.len() - i,
        {
            if self.votes[i].claim_id == claim_id && self.votes[i].voter == *voter {
                proof {
                    assert(self@.votes[i as int] == self.votes@[i as int]@);
                    assert(self@.votes[i as int].claim_id == claim_id as nat);
                }
                return true;
            }
            i += 1;
        }
        proof {
            assert forall|j: int| 0 <= j < self@.votes.len() implies !(#[trigger] self@.votes[j].claim_id
                == claim_id && self@.votes[j].voter == voter@) by {
                assert(self@.votes[j] == self.votes@[j]@);
            }
        }
        false
    }

    /// `voter` votes on claim `claim_id` at ledger time `now`: to approve it
    /// when `approve` holds, else to reject it.
    ///
    /// On success the vote is recorded and counted in the claim's tallies.
    pub fn vote_claim(&mut self, voter: String, claim_id: u64, approve: bool, now: u64) -> (r:
        Result<(), ContractError>)
        requires
            old(self).wf(),
        ensures
            final(self).wf(),
            match vote_claim_error(old(self)@, voter@, claim_id as nat, now as nat) {
                Some(e) => r == Err::<(), ContractError>(e) && final(self)@ == old(self)@,
                None => r is Ok && final(self)@ == vote_claim_effect(
                    old(self)@,
                    voter@,
                    claim_id as nat,
                    approve,
                ),
            },
    {
        match self.require_initialized() {
            Ok(()) => {},
            Err(e) => return Err(e),
        }
        if self.find_member(&voter).is_none() {
            return Err(ContractError::NotMember);
        }
        if claim_id >= self.claim_counter {
            return Err(ContractError::ClaimNotFound);
        }
        let len = self.claims.len();
        proof {
            assert(claim_id < len);
        }
        let idx = claim_id as usize;
        proof {
            assert(idx as int == claim_id as int);
            assert(self@.claims[idx as int] == self.claims@[idx as int]@);
        }
        if self.claims[idx].status != ClaimStatus::Pending {
            return Err(ContractError::InvalidClaimStatus);
        }
        if voter == self.claims[idx].claimant {
            return Err(ContractError::SelfVoteNotAllowed);
        }
        if now > self.claims[idx].deadline {
            return Err(ContractError::VotingPeriodEnded);
        }
        if self.find_vote(claim_id, &voter) {
            return Err(ContractError::AlreadyVoted);
        }
        let ghost s0 = self@;
        proof {
            lemma_votes_bounded(s0, claim_id as nat);
        }
        let vote = Vote { claim_id, voter, approve };
        self.votes.push(vote);
        if approve {
            self.claims[idx].votes_approve = self.claims[idx].votes_approve + 1;
        } else {
            self.claims[idx].votes_reject = self.claims[idx].votes_reject + 1;
        }
        proof {
            let s1 = self@;
            assert(s1.votes =~= s0.votes.push(vote@));
            assert(s1.claims =~= s0.claims.update(
                claim_id as int,
                tally_vote(s0.claims[claim_id as int], approve),
            ));
            assert(s1.members =~= s0.members);
            lemma_vote_keeps_consistency(s0, vote@.voter, claim_id as nat, approve, now as nat);
        }
        Ok(())
    }

    /// Execute claim `claim_id` at ledger time `now`, after its voting period.
    ///
    /// The claim must have at least the quorum of votes: half of the members
    /// other than the claimant. If it has votes and more of them approve, it
    /// is approved: it is marked executed, its amount leaves the pool through
    /// the returned payout, and the claimant's reputation rises by 5.
    /// Otherwise it is rejected: the funds stay in the pool and the claimant's
    /// reputation drops by 10.
    pub fn execute_claim(&mut self, claim_id: u64, now: u64) -> (r: Result<
        ClaimOutcome,
        ContractError,
    >)
        requires
            old(self).wf(),
        ensures
            final(self).wf(),
            match execute_claim_error(old(self)@, claim_id as nat, now as nat) {
                Some(e) => r == Err::<ClaimOutcome, ContractError>(e) && final(self)@ == old(
                    self,
                )@,
                None => {
                    &&& r is Ok
                    &&& final(self)@ == execute_claim_effect(old(self)@, claim_id as nat)
                    &&& r->Ok_0@ == if is_approved(old(self)@.claims[claim_id as int]) {
                        OutcomeView::Approved(payout_transfer(old(self)@, claim_id as nat))
                    } else {
                        OutcomeView::Rejected
                    }
                    &&& (r->Ok_0 is Approved <==> old(self)@.claims[claim_id as int].votes_approve
                        > old(self)@.claims[claim_id as int].votes_reject)
                },
            },
    {
        match self.require_initialized() {
            Ok(()) => {},
            Err(e) => return Err(e),
        }
        if claim_id >= self.claim_counter {
            return Err(ContractError::ClaimNotFound);
        }
        let len = self.claims.len();
        proof {
            assert(claim_id < len);
        }
        let idx = claim_id as usize;
        let ghost s0 = self@;
        let ghost id = claim_id as int;
        proof {
            assert(idx as int == id);
            assert(s0.claims[id] == self.claims@[id]@);
        }
        if self.claims[idx].status != ClaimStatus::Pending {
            return Err(ContractError::InvalidClaimStatus);
        }
        if now <= self.claims[idx].deadline {
            return Err(ContractError::VotingPeriodActive);
        }
        proof {
            lemma_votes_bounded(s0, claim_id as nat);
        }
        let member_count = self.member_count;
        let votes_approve = self.claims[idx].votes_approve;
        let votes_reject = self.claims[idx].votes_reject;
        let total_votes = votes_approve + votes_reject;
        // the claimant cannot vote, so the eligible voters are the other members
        let eligible_voters = if member_count > 0 {
            member_count - 1
        } else {
            0
        };
        // at least the quorum share of the eligible voters must have voted
        if (total_votes as u64) * 100 < (eligible_voters as u64) * (QUORUM_PERCENT as u64) {
            return Err(ContractError::QuorumNotReached);
        }
        let k = match self.find_member(&self.claims[idx].claimant) {
            Some(k) => k,
            None => {
                proof {
                    assert(is_member(s0, s0.claims[id].claimant));
                }
                return Err(ContractError::NotMember);
            },
        };
        proof {
            self.lemma_member_index(k as int, s0.claims[id].claimant);
            lemma_count_claims_bound(s0.claims, s0.claims[id].claimant);
            assert(s0.members[k as int].reputation == earned_reputation(
                s0.claims,
                s0.claims[id].claimant,
            ));
        }
        let pool_balance = self.pool_balance;
        let amount = self.claims[idx].amount;
        let rep = self.members[k].reputation;
        if total_votes > 0 && votes_approve > votes_reject {
            if amount > pool_balance {
                return Err(ContractError::InsufficientFunds);
            }
            let token = match self.get_token_address() {
                Ok(t) => t,
                Err(e) => return Err(e),
            };
            let payout = TokenTransfer::OutOfPool {
                token,
                to: self.claims[idx].claimant.clone(),
                amount,
            };
            self.pool_balance = pool_balance - amount;
            self.claims[idx].status = ClaimStatus::Executed;
            self.members[k].reputation = rep + APPROVAL_REWARD;
            proof {
                let s1 = self@;
                let c = s0.claims[id];
                let m = s0.members[k as int];
                assert(s1.claims =~= s0.claims.update(
                    id,
                    ClaimView { status: ClaimStatus::Executed, ..c },
                ));
                assert(s1.members =~= s0.members.update(
                    k as int,
                    MemberView { reputation: m.reputation + APPROVAL_REWARD, ..m },
                ));
                assert(s1.votes =~= s0.votes);
                lemma_execute_keeps_consistency(s0, claim_id as nat, now as nat);
            }
            Ok(ClaimOutcome::Approved(payout))
        } else {
            self.claims[idx].status = ClaimStatus::Rejected;
            self.members[k].reputation = rep - REJECTION_PENALTY;
            proof {
                let s1 = self@;
                let c = s0.claims[id];
                let m = s0.members[k as int];
                assert(s1.claims =~= s0.claims.update(
                    id,
                    ClaimView { status: ClaimStatus::Rejected, ..c },
                ));
                assert(s1.members =~= s0.members.update(
                    k as int,
                    MemberView { reputation: m.reputation - REJECTION_PENALTY, ..m },
                ));
                assert(s1.votes =~= s0.votes);
                lemma_execute_keeps_consistency(s0, claim_id as nat, now as nat);
            }
            Ok(ClaimOutcome::Rejected)
        }
    }

    /// Get the reputation score of `member`; 0 for an address that is not a member.
    pub fn get_reputation(&self, member: &String) -> (r: i128)
        requires
            self.wf(),
        ensures
            r == reputation_of(self@, member@),
    {
        match self.find_member(member) {
            Some(i) => {
                proof {
                    self.lemma_member_index(i as int, member@);
                }
                self.members[i].reputation
            },
            None => 0,
        }
    }

    /// Get the current total balance of the pool.
    pub fn get_pool_balance(&self) -> (r: i128)
        ensures
            r == self@.pool_balance,
    {
        self.pool_balance
    }

    /// Get the total number of registered pool members.
    pub fn get_member_count(&self) -> (r: u32)
        requires
            self.wf(),
        ensures
            r == self@.members.len(),
    {
        self.member_count
    }

    /// Retrieve the claim with id `claim_id`.
    pub fn get_claim(&self, claim_id: u64) -> (r: Result<Claim, ContractError>)
        requires
            self.wf(),
        ensures
            claim_id < self@.claims.len() ==> r is Ok && r->Ok_0@ == self@.claims[claim_id as int],
            claim_id >= self@.claims.len() ==> r == Err::<Claim, ContractError>(
                ContractError::ClaimNotFound,
            ),
    {
        if claim_id >= self.claim_counter {
            return Err(ContractError::ClaimNotFound);
        }
        let len = self.claims.len();
        proof {
            assert(claim_id < len);
        }
        let c = &self.claims[claim_id as usize];
        proof {
            assert(self@.claims[claim_id as int] == self.claims@[claim_id as int]@);
        }
        Ok(
            Claim {
                claimant: c.claimant.clone(),
                amount: c.amount,
                reason: c.reason.clone(),
                votes_approve: c.votes_approve,
                votes_reject: c.votes_reject,
                status: c.status,
                deadline: c.deadline,
            },
        )
    }

    /// The settings fixed by initialization, if the pool was initialized.
    pub fn config(&self) -> (r: Option<&PoolConfig>)
        ensures
            match r {
                Some(c) => self@.config == Some(c@),
                None => self@.config is None,
            },
    {
        match &self.config {
            Some(c) => Some(c),
            None => None,
        }
    }

    /// `account` is a registered member.
    pub fn is_member(&self, account: &String) -> (r: bool)
        ensures
            r == is_member(self@, account@),
    {
        match self.find_member(account) {
            Some(i) => {
                proof {
                    assert(self@.members[i as int].account == account@);
                }
                true
            },
            None => false,
        }
    }

    /// Number of claims filed so far; the next claim receives this id.
    pub fn claim_count(&self) -> (r: u64)
        requires
            self.wf(),
        ensures
            r == self@.claims.len(),
    {
        self.claim_counter
    }

    /// Find the position of `account` among the members.
    fn find_member(&self, account: &String) -> (r: Option<usize>)
        ensures
            match r {
                Some(i) => i < self@.members.len() && self@.members[i as int].account == account@,
                None => !is_member(self@, account@),
            },
    {
        let mut i: usize = 0;
        while i < self.members.len()
            invariant
                i <= self.members@.len(),
                forall|j: int| 0 <= j < i ==> self.members@[j].account@ != account@,
            decreases self.members@.len() - i,
        {
            if self.members[i].account == *account {
                return Some(i);
            }
            i += 1;
        }
        proof {
            assert forall|j: int| 0 <= j < self@.members.len() implies #[trigger] self@.members[j].account
                != account@ by {
                assert(self@.members[j] == self.members@[j]@);
            }
        }
        None
    }

    /// The member found at position `i` is the one that `member_index` names.
    proof fn lemma_member_index(&self, i: int, account: Seq<char>)
        requires
            self.wf(),
            0 <= i < self@.members.len(),
            self@.members[i].account == account,
        ensures
            is_member(self@, account),
            member_index(self@, account) == i,
            self@.members[i] == self.members@[i]@,
    {
        let s = self@;
        assert(is_member(s, account));
        let k = member_index(s, account);
        assert(s.members[k].account == account);
    }
}

/// Joining keeps the pool consistent.
#[verifier::spinoff_prover]
pub proof fn lemma_join_keeps_consistency(s: PoolView, member: Seq<char>, premium: int)
    requires
        s.consistent(),
        join_pool_error(s, member, premium) is None,
    ensures
        join_pool_effect(s, member, premium).consistent(),
{
    let t = join_pool_effect(s, member, premium);
    let m = t.members.last();
    assert(t.members[s.members.len() as int] == m);
    assert forall|i: int| 0 <= i < s.members.len() implies t.members[i] == s.members[i] by {}
    assert forall|a: Seq<char>| is_member(s, a) implies is_member(t, a) by {
        let k = member_index(s, a);
        assert(t.members[k].account == a);
    }
    assert forall|i: int| 0 <= i < s.claims.len() implies #[trigger] s.claims[i].claimant != member by {
        assert(is_member(s, s.claims[i].claimant));
    }
    lemma_count_claims_absent(s.claims, member, ClaimStatus::Executed);
    lemma_count_claims_absent(s.claims, member, ClaimStatus::Rejected);
    lemma_total_premiums_push(s.members, m);
    assert forall|i: int, j: int|
        0 <= i < t.members.len() && 0 <= j < t.members.len() && i != j
        implies #[trigger] t.members[i].account != #[trigger] t.members[j].account by {
        if i == s.members.len() as int {
            assert(s.members[j].account == t.members[j].account);
        } else if j == s.members.len() as int {
            assert(s.members[i].account == t.members[i].account);
        }
    }
    assert forall|i: int| 0 <= i < t.claims.len() implies is_member(t, #[trigger] t.claims[i].claimant)
        && t.claims[i].amount > 0 by {
        assert(is_member(s, s.claims[i].claimant));
    }
    assert forall|i: int| 0 <= i < t.votes.len() implies {
        &&& #[trigger] t.votes[i].claim_id < t.claims.len()
        &&& is_member(t, t.votes[i].voter)
        &&& t.votes[i].voter != t.claims[t.votes[i].claim_id as int].claimant
    } by {
        assert(is_member(s, s.votes[i].voter));
    }
    assert forall|i: int| 0 <= i < t.members.len() implies #[trigger] t.members[i].reputation
        == earned_reputation(t.claims, t.members[i].account) by {
        if i < s.members.len() {
            assert(t.members[i] == s.members[i]);
        }
    }
}

/// Filing a claim keeps the pool consistent.
#[verifier::spinoff_prover]
pub proof fn lemma_file_keeps_consistency(
    s: PoolView,
    claimant: Seq<char>,
    amount: int,
    reason: Seq<char>,
    now: nat,
)
    requires
        s.consistent(),
        file_claim_error(s, claimant, amount) is None,
    ensures
        file_claim_effect(s, claimant, amount, reason, now).consistent(),
{
    let t = file_claim_effect(s, claimant, amount, reason, now);
    let c = new_claim(s, claimant, amount, reason, now);
    let n = s.claims.len();
    assert(t.claims[n as int] == c);
    assert forall|i: int| 0 <= i < n implies t.claims[i] == s.claims[i] by {}
    assert forall|a: Seq<char>| is_member(s, a) implies is_member(t, a) by {
        let k = member_index(s, a);
        assert(t.members[k].account == a);
    }
    assert forall|i: int| 0 <= i < s.votes.len() implies #[trigger] s.votes[i].claim_id != n by {}
    lemma_count_votes_absent(s.votes, n, true);
    lemma_count_votes_absent(s.votes, n, false);
    lemma_total_payouts_push(s.claims, c);
    assert forall|i: int| 0 <= i < t.members.len() implies #[trigger] t.members[i].reputation
        == earned_reputation(t.claims, t.members[i].account) by {
        lemma_count_claims_push(s.claims, c, s.members[i].account, ClaimStatus::Executed);
        lemma_count_claims_push(s.claims, c, s.members[i].account, ClaimStatus::Rejected);
    }
    assert forall|i: int| 0 <= i < t.claims.len() implies is_member(t, #[trigger] t.claims[i].claimant)
        && t.claims[i].amount > 0 by {
        if i < n {
            assert(is_member(s, s.claims[i].claimant));
        }
    }
    assert forall|i: int| 0 <= i < t.votes.len() implies {
        &&& #[trigger] t.votes[i].claim_id < t.claims.len()
        &&& is_member(t, t.votes[i].voter)
        &&& t.votes[i].voter != t.claims[t.votes[i].claim_id as int].claimant
    } by {
        assert(is_member(s, s.votes[i].voter));
    }
    assert forall|k: int| 0 <= k < t.claims.len() implies {
        &&& #[trigger] t.claims[k].votes_approve == count_votes(t.votes, k as nat, true)
        &&& t.claims[k].votes_reject == count_votes(t.votes, k as nat, false)
    } by {}
}

/// Voting keeps the pool consistent.
#[verifier::spinoff_prover]
pub proof fn lemma_vote_keeps_consistency(
    s: PoolView,
    voter: Seq<char>,
    claim_id: nat,
    approve: bool,
    now: nat,
)
    requires
        s.consistent(),
        vote_claim_error(s, voter, claim_id, now) is None,
    ensures
        vote_claim_effect(s, voter, claim_id, approve).consistent(),
{
    let t = vote_claim_effect(s, voter, claim_id, approve);
    let v = VoteView { claim_id, voter, approve };
    let id = claim_id as int;
    let n = s.votes.len() as int;
    let c2 = tally_vote(s.claims[id], approve);
    assert(t.votes[n] == v);
    assert forall|i: int| 0 <= i < n implies t.votes[i] == s.votes[i] by {}
    assert forall|i: int| 0 <= i < s.claims.len() implies t.claims[i].claimant == s.claims[i].claimant
        && t.claims[i].amount == s.claims[i].amount && t.claims[i].status == s.claims[i].status by {}
    assert forall|i: int, j: int|
        0 <= i < t.votes.len() && 0 <= j < t.votes.len() && i != j
            && #[trigger] t.votes[i].claim_id == #[trigger] t.votes[j].claim_id
        implies t.votes[i].voter != t.votes[j].voter by {
        if i == n {
            assert(s.votes[j].claim_id == claim_id);
            if s.votes[j].voter == voter {
                assert(has_voted(s, claim_id, voter));
            }
        } else if j == n {
            assert(s.votes[i].claim_id == claim_id);
            if s.votes[i].voter == voter {
                assert(has_voted(s, claim_id, voter));
            }
        }
    }
    assert forall|i: int| 0 <= i < t.votes.len() implies {
        &&& #[trigger] t.votes[i].claim_id < t.claims.len()
        &&& is_member(t, t.votes[i].voter)
        &&& t.votes[i].voter != t.claims[t.votes[i].claim_id as int].claimant
    } by {
        let w = t.votes[i].voter;
        if i < n {
            assert(is_member(s, s.votes[i].voter));
            assert(t.members[member_index(s, w)].account == w);
            assert(t.claims[s.votes[i].claim_id as int].claimant == s.claims[s.votes[i].claim_id as int].claimant);
        } else {
            assert(t.votes[i] == v);
            assert(t.members[member_index(s, w)].account == w);
            assert(t.claims[id].claimant == s.claims[id].claimant);
        }
    }
    assert forall|k: int| 0 <= k < t.claims.len() implies {
        &&& #[trigger] t.claims[k].votes_approve == count_votes(t.votes, k as nat, true)
        &&& t.claims[k].votes_reject == count_votes(t.votes, k as nat, false)
    } by {
        lemma_count_votes_push(s.votes, v, k as nat, true);
        lemma_count_votes_push(s.votes, v, k as nat, false);
        if k == id {
            assert(t.claims[k] == c2);
        } else {
            assert(t.claims[k] == s.claims[k]);
        }
    }
    assert forall|i: int| 0 <= i < t.claims.len() implies is_member(t, #[trigger] t.claims[i].claimant)
        && t.claims[i].amount > 0 by {
        assert(is_member(s, s.claims[i].claimant));
    }
    lemma_total_payouts_update(s.claims, id, c2);
    assert forall|i: int| 0 <= i < t.members.len() implies #[trigger] t.members[i].reputation
        == earned_reputation(t.claims, t.members[i].account) by {
        lemma_count_claims_update(s.claims, id, c2, s.members[i].account, ClaimStatus::Executed);
        lemma_count_claims_update(s.claims, id, c2, s.members[i].account, ClaimStatus::Rejected);
    }
}

/// Executing a claim keeps the pool consistent.
#[verifier::spinoff_prover]
pub proof fn lemma_execute_keeps_consistency(s: PoolView, claim_id: nat, now: nat)
    requires
        s.consistent(),
        execute_claim_error(s, claim_id, now) is None,
    ensures
        execute_claim_effect(s, claim_id).consistent(),
{
    let t = execute_claim_effect(s, claim_id);
    let id = claim_id as int;
    let c = s.claims[id];
    assert(is_member(s, c.claimant));
    let k = member_index(s, c.claimant);
    let m = s.members[k];
    let c2 = t.claims[id];
    let m2 = t.members[k];
    assert(c2.claimant == c.claimant && c2.amount == c.amount);
    assert(m2.account == m.account && m2.premium == m.premium);
    assert forall|i: int| 0 <= i < t.members.len() implies #[trigger] t.members[i].account
        == s.members[i].account && t.members[i].premium == s.members[i].premium by {}
    assert forall|i: int| 0 <= i < t.claims.len() implies #[trigger] t.claims[i].claimant
        == s.claims[i].claimant && t.claims[i].amount == s.claims[i].amount
        && t.claims[i].votes_approve == s.claims[i].votes_approve
        && t.claims[i].votes_reject == s.claims[i].votes_reject by {}
    assert forall|a: Seq<char>| is_member(s, a) implies is_member(t, a) by {
        let j = member_index(s, a);
        assert(t.members[j].account == a);
    }
    assert forall|i: int| 0 <= i < t.claims.len() implies is_member(t, #[trigger] t.claims[i].claimant)
        && t.claims[i].amount > 0 by {
        assert(is_member(s, s.claims[i].claimant));
    }
    assert forall|i: int| 0 <= i < t.votes.len() implies {
        &&& #[trigger] t.votes[i].claim_id < t.claims.len()
        &&& is_member(t, t.votes[i].voter)
        &&& t.votes[i].voter != t.claims[t.votes[i].claim_id as int].claimant
    } by {
        assert(is_member(s, s.votes[i].voter));
        assert(t.claims[s.votes[i].claim_id as int].claimant == s.claims[s.votes[i].claim_id as int].claimant);
    }
    assert forall|i: int, j: int|
        0 <= i < t.members.len() && 0 <= j < t.members.len() && i != j
        implies #[trigger] t.members[i].account != #[trigger] t.members[j].account by {
        assert(s.members[i].account != s.members[j].account);
    }
    assert forall|j: int| 0 <= j < t.claims.len() implies {
        &&& #[trigger] t.claims[j].votes_approve == count_votes(t.votes, j as nat, true)
        &&& t.claims[j].votes_reject == count_votes(t.votes, j as nat, false)
    } by {}
    lemma_total_premiums_update(s.members, k, m2);
    lemma_total_payouts_update(s.claims, id, c2);
    assert forall|i: int| 0 <= i < t.members.len() implies #[trigger] t.members[i].reputation
        == earned_reputation(t.claims, t.members[i].account) by {
        let a = s.members[i].account;
        lemma_count_claims_update(s.claims, id, c2, a, ClaimStatus::Executed);
        lemma_count_claims_update(s.claims, id, c2, a, ClaimStatus::Rejected);
        if i != k {
            assert(a != c.claimant);
        }
    }
}

} // verus!
