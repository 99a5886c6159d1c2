//! Facts about the counts and sums that the pool's invariant is stated with.
use vstd::prelude::*;
use crate::model::{
    count_claims, count_votes, is_member, total_payouts, total_premiums, MemberView, PoolView,
    VoteView,
};
use crate::types::{ClaimStatus, ClaimView};

verus! {

pub proof fn lemma_count_votes_push(votes: Seq<VoteView>, v: VoteView, claim_id: nat, approve: bool)
    ensures
        count_votes(votes.push(v), claim_id, approve) == count_votes(votes, claim_id, approve) + if v.claim_id
            == claim_id && v.approve == approve {
            1nat
        } else {
            0nat
        },
{
    assert(votes.push(v).drop_last() =~= votes);
}

pub proof fn lemma_count_claims_push(
    claims: Seq<ClaimView>,
    c: ClaimView,
    claimant: Seq<char>,
    status: ClaimStatus,
)
    ensures
        count_claims(claims.push(c), claimant, status) == count_claims(claims, claimant, status)
            + if c.claimant == claimant && c.status == status {
            1nat
        } else {
            0nat
        },
{
    assert(claims.push(c).drop_last() =~= claims);
}

pub proof fn lemma_total_payouts_push(claims: Seq<ClaimView>, c: ClaimView)
    ensures
        total_payouts(claims.push(c)) == total_payouts(claims) + if c.status
            == ClaimStatus::Executed {
            c.amount
        } else {
            0
        },
{
    assert(claims.push(c).drop_last() =~= claims);
}

pub proof fn lemma_total_premiums_push(members: Seq<MemberView>, m: MemberView)
    ensures
        total_premiums(members.push(m)) == total_premiums(members) + m.premium,
{
    assert(members.push(m).drop_last() =~= members);
}

pub proof fn lemma_count_claims_update(
    claims: Seq<ClaimView>,
    i: int,
    c: ClaimView,
    claimant: Seq<char>,
    status: ClaimStatus,
)
    requires
        0 <= i < claims.len(),
    ensures
        count_claims(claims.update(i, c), claimant, status) + (if claims[i].claimant == claimant
            && claims[i].status == status {
            1int
        } else {
            0int
        }) == count_claims(claims, claimant, status) + (if c.claimant == claimant && c.status
            == status {
            1int
        } else {
            0int
        }),
    decreases claims.len(),
{
    let t = claims.update(i, c);
    if i == claims.len() - 1 {
        assert(t.drop_last() =~= claims.drop_last());
    } else {
        lemma_count_claims_update(claims.drop_last(), i, c, claimant, status);
        assert(t.drop_last() =~= claims.drop_last().update(i, c));
    }
}

pub proof fn lemma_total_payouts_update(claims: Seq<ClaimView>, i: int, c: ClaimView)
    requires
        0 <= i < claims.len(),
    ensures
        total_payouts(claims.update(i, c)) + (if claims[i].status == ClaimStatus::Executed {
            claims[i].amount
        } else {
            0
        }) == total_payouts(claims) + (if c.status == ClaimStatus::Executed {
            c.amount
        } else {
            0
        }),
    decreases claims.len(),
{
    let t = claims.update(i, c);
    if i == claims.len() - 1 {
        assert(t.drop_last() =~= claims.drop_last());
    } else {
        lemma_total_payouts_update(claims.drop_last(), i, c);
        assert(t.drop_last() =~= claims.drop_last().update(i, c));
    }
}

pub proof fn lemma_total_premiums_update(members: Seq<MemberView>, i: int, m: MemberView)
    requires
        0 <= i < members.len(),
    ensures
        total_premiums(members.update(i, m)) + members[i].premium == total_premiums(members)
            + m.premium,
    decreases members.len(),
{
    let t = members.update(i, m);
    if i == members.len() - 1 {
        assert(t.drop_last() =~= members.drop_last());
    } else {
        lemma_total_premiums_update(members.drop_last(), i, m);
        assert(t.drop_last() =~= members.drop_last().update(i, m));
    }
}

/// No vote is counted for a claim that no vote names.
pub proof fn lemma_count_votes_absent(votes: Seq<VoteView>, claim_id: nat, approve: bool)
    requires
        forall|i: int| 0 <= i < votes.len() ==> #[trigger] votes[i].claim_id != claim_id,
    ensures
        count_votes(votes, claim_id, approve) == 0,
    decreases votes.len(),
{
    if votes.len() > 0 {
        let p = votes.drop_last();
        assert forall|i: int| 0 <= i < p.len() implies #[trigger] p[i].claim_id != claim_id by {
            assert(p[i] == votes[i]);
        }
        lemma_count_votes_absent(p, claim_id, approve);
    }
}

/// No claim is counted for an account that filed none.
pub proof fn lemma_count_claims_absent(claims: Seq<ClaimView>, claimant: Seq<char>, status: ClaimStatus)
    requires
        forall|i: int| 0 <= i < claims.len() ==> #[trigger] claims[i].claimant != claimant,
    ensures
        count_claims(claims, claimant, status) == 0,
    decreases claims.len(),
{
    if claims.len() > 0 {
        let p = claims.drop_last();
        assert forall|i: int| 0 <= i < p.len() implies #[trigger] p[i].claimant != claimant by {
            assert(p[i] == claims[i]);
        }
        lemma_count_claims_absent(p, claimant, status);
    }
}

/// An account's approved and rejected claims are among all claims.
pub proof fn lemma_count_claims_bound(claims: Seq<ClaimView>, claimant: Seq<char>)
    ensures
        count_claims(claims, claimant, ClaimStatus::Executed) + count_claims(
            claims,
            claimant,
            ClaimStatus::Rejected,
        ) <= claims.len(),
    decreases claims.len(),
{
    if claims.len() > 0 {
        lemma_count_claims_bound(claims.drop_last(), claimant);
    }
}

/// The accounts of the members in `members`.
spec fn accounts(members: Seq<MemberView>) -> Set<Seq<char>>
    decreases members.len(),
{
    if members.len() == 0 {
        Set::empty()
    } else {
        accounts(members.drop_last()).insert(members.last().account)
    }
}

/// The accounts that cast a vote on claim `claim_id`.
spec fn voters_on(votes: Seq<VoteView>, claim_id: nat) -> Set<Seq<char>>
    decreases votes.len(),
{
    if votes.len() == 0 {
        Set::empty()
    } else if votes.last().claim_id == claim_id {
        voters_on(votes.drop_last(), claim_id).insert(votes.last().voter)
    } else {
        voters_on(votes.drop_last(), claim_id)
    }
}

proof fn lemma_accounts(members: Seq<MemberView>)
    requires
        forall|i: int, j: int|
            0 <= i < members.len() && 0 <= j < members.len() && i != j
                ==> #[trigger] members[i].account != #[trigger] members[j].account,
    ensures
        accounts(members).finite(),
        accounts(members).len() == members.len(),
        forall|a: Seq<char>|
            accounts(members).contains(a) <==> exists|i: int|
                0 <= i < members.len() && #[trigger] members[i].account == a,
    decreases members.len(),
{
    if members.len() > 0 {
        let p = members.drop_last();
        let l = members.last();
        assert forall|i: int, j: int|
            0 <= i < p.len() && 0 <= j < p.len() && i != j
            implies #[trigger] p[i].account != #[trigger] p[j].account by {
            assert(p[i] == members[i] && p[j] == members[j]);
        }
        lemma_accounts(p);
        assert(!accounts(p).contains(l.account)) by {
            if accounts(p).contains(l.account) {
                let i = choose|i: int| 0 <= i < p.len() && #[trigger] p[i].account == l.account;
                assert(members[i].account == members[members.len() - 1].account);
            }
        }
        assert forall|a: Seq<char>|
            accounts(members).contains(a) <==> exists|i: int|
                0 <= i < members.len() && #[trigger] members[i].account == a by {
            if accounts(members).contains(a) && a != l.account {
                let i = choose|i: int| 0 <= i < p.len() && #[trigger] p[i].account == a;
                assert(members[i].account == a);
            }
            if exists|i: int| 0 <= i < members.len() && #[trigger] members[i].account == a {
                let i = choose|i: int| 0 <= i < members.len() && #[trigger] members[i].account == a;
                if i < p.len() {
                    assert(p[i].account == a);
                }
            }
        }
    }
}

proof fn lemma_voters_on(votes: Seq<VoteView>, claim_id: nat)
    requires
        forall|i: int, j: int|
            0 <= i < votes.len() && 0 <= j < votes.len() && i != j
                && #[trigger] votes[i].claim_id == #[trigger] votes[j].claim_id
                ==> votes[i].voter != votes[j].voter,
    ensures
        voters_on(votes, claim_id).finite(),
        voters_on(votes, claim_id).len() == count_votes(votes, claim_id, true) + count_votes(
            votes,
            claim_id,
            false,
        ),
        forall|a: Seq<char>|
            voters_on(votes, claim_id).contains(a) <==> exists|i: int|
                0 <= i < votes.len() && #[trigger] votes[i].claim_id == claim_id && votes[i].voter
                    == a,
    decreases votes.len(),
{
    if votes.len() > 0 {
        let p = votes.drop_last();
        let l = votes.last();
        let n = votes.len() - 1;
        assert forall|i: int, j: int|
            0 <= i < p.len() && 0 <= j < p.len() && i != j
                && #[trigger] p[i].claim_id == #[trigger] p[j].claim_id
            implies p[i].voter != p[j].voter by {
            assert(p[i] == votes[i] && p[j] == votes[j]);
        }
        lemma_voters_on(p, claim_id);
        if l.claim_id == claim_id {
            assert(!voters_on(p, claim_id).contains(l.voter)) by {
                if voters_on(p, claim_id).contains(l.voter) {
                    let i = choose|i: int|
                        0 <= i < p.len() && #[trigger] p[i].claim_id == claim_id && p[i].voter
                            == l.voter;
                    assert(votes[i].claim_id == votes[n].claim_id);
                }
            }
        }
        assert forall|a: Seq<char>|
            voters_on(votes, claim_id).contains(a) <==> exists|i: int|
                0 <= i < votes.len() && #[trigger] votes[i].claim_id == claim_id && votes[i].voter
                    == a by {
            if voters_on(p, claim_id).contains(a) {
                let i = choose|i: int|
                    0 <= i < p.len() && #[trigger] p[i].claim_id == claim_id && p[i].voter == a;
                assert(votes[i] == p[i]);
            }
            if exists|i: int|
                0 <= i < votes.len() && #[trigger] votes[i].claim_id == claim_id && votes[i].voter
                    == a {
                let i = choose|i: int|
                    0 <= i < votes.len() && #[trigger] votes[i].claim_id == claim_id
                        && votes[i].voter == a;
                if i < p.len() {
                    assert(p[i] == votes[i]);
                }
            }
        }
    }
}

/// On any claim, the votes cast number fewer than the members: every voter
/// is a member other than the claimant, and votes no more than once.
pub proof fn lemma_votes_bounded(s: PoolView, claim_id: nat)
    requires
        s.consistent(),
        claim_id < s.claims.len(),
    ensures
        count_votes(s.votes, claim_id, true) + count_votes(s.votes, claim_id, false) + 1
            <= s.members.len(),
{
    let claimant = s.claims[claim_id as int].claimant;
    lemma_accounts(s.members);
    lemma_voters_on(s.votes, claim_id);
    let all = accounts(s.members);
    let voters = voters_on(s.votes, claim_id);
    assert(is_member(s, claimant));
    assert(all.contains(claimant)) by {
        let k = choose|i: int| 0 <= i < s.members.len() && #[trigger] s.members[i].account == claimant;
        assert(s.members[k].account == claimant);
    }
    assert forall|a: Seq<char>| voters.contains(a) implies all.remove(claimant).contains(a) by {
        let i = choose|i: int|
            0 <= i < s.votes.len() && #[trigger] s.votes[i].claim_id == claim_id && s.votes[i].voter
                == a;
        assert(is_member(s, s.votes[i].voter));
        let k = choose|k: int| 0 <= k < s.members.len() && #[trigger] s.members[k].account == a;
        assert(s.members[k].account == a);
    }
    vstd::set_lib::lemma_len_subset(voters, all.remove(claimant));
}

} // verus!
