//! Value types of the insurance pool: claim records, statuses, errors and
//! the token movements that the pool asks its host to carry out.
//!
//! Accounts (pool members, the admin, the token contract) are identified by
//! the text of their ledger address, held as a `String`.
use vstd::prelude::*;

verus! {

/// The current status of an insurance claim.
#[derive(Clone, Copy, Debug, PartialEq, Eq, Structural)]
pub enum ClaimStatus {
    Pending,
    Approved,
    Rejected,
    Executed,
}

/// Error codes of the pool. Each variant has a stable numeric code,
/// given by [`ContractError::code`].
#[derive(Clone, Copy, Debug, PartialEq, Eq, Structural)]
pub enum ContractError {
    /// Member is already registered in the pool
    AlreadyMember,
    /// Address is not a registered pool member
    NotMember,
    /// Premium amount must be greater than zero
    InvalidPremium,
    /// Claim amount must be greater than zero
    InvalidClaimAmount,
    /// The specified claim does not exist
    ClaimNotFound,
    /// Claim is not in a valid state for this operation
    InvalidClaimStatus,
    /// This member has already voted on this claim
    AlreadyVoted,
    /// Pool does not have enough funds to pay the claim
    InsufficientFunds,
    /// Claim amount exceeds the total pool balance
    ClaimExceedsPool,
    /// The pool has already been initialized
    AlreadyInitialized,
    /// The pool has not been initialized yet
    NotInitialized,
    /// Claimant cannot vote on their own claim (conflict of interest)
    SelfVoteNotAllowed,
    /// The voting period has ended; no more votes accepted
    VotingPeriodEnded,
    /// The voting period is still active; cannot execute yet
    VotingPeriodActive,
    /// Minimum voting quorum has not been reached
    QuorumNotReached,
}

impl ContractError {
    /// The numeric code of each error, as the ledger reports it.
    pub open spec fn error_code(self) -> u32 {
        match self {
            ContractError::AlreadyMember => 1,
            ContractError::NotMember => 2,
            ContractError::InvalidPremium => 3,
            ContractError::InvalidClaimAmount => 4,
            ContractError::ClaimNotFound => 5,
            ContractError::InvalidClaimStatus => 6,
            ContractError::AlreadyVoted => 7,
            ContractError::InsufficientFunds => 8,
            ContractError::ClaimExceedsPool => 9,
            ContractError::AlreadyInitialized => 10,
            ContractError::NotInitialized => 11,
            ContractError::SelfVoteNotAllowed => 12,
            ContractError::VotingPeriodEnded => 13,
            ContractError::VotingPeriodActive => 14,
            ContractError::QuorumNotReached => 15,
        }
    }

    /// Returns the numeric code of this error.
    pub fn code(&self) -> (c: u32)
        ensures
            c == self.error_code(),
    {
        match self {
            ContractError::AlreadyMember => 1,
            ContractError::NotMember => 2,
            ContractError::InvalidPremium => 3,
            ContractError::InvalidClaimAmount => 4,
            ContractError::ClaimNotFound => 5,
            ContractError::InvalidClaimStatus => 6,
            ContractError::AlreadyVoted => 7,
            ContractError::InsufficientFunds => 8,
            ContractError::ClaimExceedsPool => 9,
            ContractError::AlreadyInitialized => 10,
            ContractError::NotInitialized => 11,
            ContractError::SelfVoteNotAllowed => 12,
            ContractError::VotingPeriodEnded => 13,
            ContractError::VotingPeriodActive => 14,
            ContractError::QuorumNotReached => 15,
        }
    }
}

/// Mathematical model of a claim.
pub struct ClaimView {
    pub claimant: Seq<char>,
    pub amount: int,
    pub reason: Seq<char>,
    pub votes_approve: nat,
    pub votes_reject: nat,
    pub status: ClaimStatus,
    pub deadline: nat,
}

/// An insurance claim filed by a pool member.
/// Includes a voting deadline for time-bound governance.
#[derive(Clone, Debug)]
pub struct Claim {
    pub claimant: String,
    pub amount: i128,
    pub reason: String,
    pub votes_approve: u32,
    pub votes_reject: u32,
    pub status: ClaimStatus,
    /// Ledger timestamp after which voting closes and execution is allowed.
    pub deadline: u64,
}

impl View for Claim {
    type V = ClaimView;

    open spec fn view(&self) -> ClaimView {
        ClaimView {
            claimant: self.claimant@,
            amount: self.amount as int,
            reason: self.reason@,
            votes_approve: self.votes_approve as nat,
            votes_reject: self.votes_reject as nat,
            status: self.status,
            deadline: self.deadline as nat,
        }
    }
}

/// Mathematical model of a token movement.
pub enum TransferView {
    IntoPool { token: Seq<char>, from: Seq<char>, amount: int },
    OutOfPool { token: Seq<char>, to: Seq<char>, amount: int },
}

/// A token movement that an operation of the pool requires: the host
/// moves `amount` units of the token contract `token` into or out of the
/// pool's own account.
#[derive(Clone, Debug)]
pub enum TokenTransfer {
    /// A member pays into the pool.
    IntoPool { token: String, from: String, amount: i128 },
    /// The pool pays a member.
    OutOfPool { token: String, to: String, amount: i128 },
}

impl View for TokenTransfer {
    type V = TransferView;

    open spec fn view(&self) -> TransferView {
        match self {
            TokenTransfer::IntoPool { token, from, amount } => TransferView::IntoPool {
                token: token@,
                from: from@,
                amount: *amount as int,
            },
            TokenTransfer::OutOfPool { token, to, amount } => TransferView::OutOfPool {
                token: token@,
                to: to@,
                amount: *amount as int,
            },
        }
    }
}

/// How an executed claim was decided.
#[derive(Clone, Debug)]
pub enum ClaimOutcome {
    /// The claim was approved and is paid out by this transfer.
    Approved(TokenTransfer),
    /// The claim was rejected; the funds stay in the pool.
    Rejected,
}

/// Mathematical model of a claim outcome.
pub enum OutcomeView {
    Approved(TransferView),
    Rejected,
}

impl View for ClaimOutcome {
    type V = OutcomeView;

    open spec fn view(&self) -> OutcomeView {
        match self {
            ClaimOutcome::Approved(t) => OutcomeView::Approved(t@),
            ClaimOutcome::Rejected => OutcomeView::Rejected,
        }
    }
}

} // verus!
