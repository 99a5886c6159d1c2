// Scenarios of the pool run against a ledger of the host: the token
// transfers that the pool asks for are carried out by a Stellar asset
// contract in a test environment, and balances are read back from it.
use micro_insurance_pool::{ClaimOutcome, ClaimStatus, ContractError, MicroInsurancePool, TokenTransfer};
use soroban_sdk::testutils::{Address as _, EnvTestConfig, Ledger as _};
use soroban_sdk::{token, Address, Env};

struct Harness {
    env: Env,
    pool: MicroInsurancePool,
    pool_address: Address,
    token_address: Address,
    admin: Address,
}

fn account(a: &Address) -> String {
    format!("{}", a.to_string())
}

fn now(env: &Env) -> u64 {
    env.ledger().timestamp()
}

/// Carries out a transfer that the pool asked for.
fn settle(h: &Harness, transfer: &TokenTransfer) {
    match transfer {
        TokenTransfer::IntoPool { token, from, amount } => {
            let client = token::Client::new(&h.env, &Address::from_str(&h.env, token));
            client.transfer(&Address::from_str(&h.env, from), &h.pool_address, amount);
        }
        TokenTransfer::OutOfPool { token, to, amount } => {
            let client = token::Client::new(&h.env, &Address::from_str(&h.env, token));
            client.transfer(&h.pool_address, &Address::from_str(&h.env, to), amount);
        }
    }
}

/// A fresh environment with a token and a pool initialized with a voting
/// period of one hour.
fn setup_env() -> Harness {
    // the environment is inspected here, not recorded to disk
    let env = Env::new_with_config(EnvTestConfig { capture_snapshot_at_drop: false });
    env.mock_all_auths();
    let pool_address = Address::generate(&env);
    let admin = Address::generate(&env);
    let token_address = env.register_stellar_asset_contract_v2(admin.clone()).address();
    let mut pool = MicroInsurancePool::new();
    let voting_period: u64 = 3600;
    pool.initialize(account(&admin), account(&token_address), voting_period)
        .unwrap();
    Harness { env, pool, pool_address, token_address, admin }
}

/// Mint tokens to a member and have the member join the pool.
fn join_member(h: &mut Harness, member: &Address, premium: i128) {
    let sac_admin = token::StellarAssetClient::new(&h.env, &h.token_address);
    sac_admin.mint(member, &premium);
    let transfer = h.pool.join_pool(account(member), premium).unwrap();
    settle(h, &transfer);
}

fn execute(h: &mut Harness, claim_id: u64) -> Result<ClaimOutcome, ContractError> {
    let t = now(&h.env);
    let outcome = h.pool.execute_claim(claim_id, t)?;
    if let ClaimOutcome::Approved(payout) = &outcome {
        settle(h, payout);
    }
    Ok(outcome)
}

fn advance(h: &Harness, seconds: u64) {
    h.env.ledger().with_mut(|li| {
        li.timestamp = li.timestamp + seconds;
    });
}

#[test]
fn test_initialization() {
    let h = setup_env();
    assert_eq!(h.pool.get_pool_balance(), 0_i128);
    assert_eq!(h.pool.get_member_count(), 0_u32);
}

#[test]
fn test_cannot_reinitialize() {
    let mut h = setup_env();
    let r = h.pool.initialize(account(&h.admin), account(&h.token_address), 3600);
    assert_eq!(r, Err(ContractError::AlreadyInitialized));
    assert_eq!(ContractError::AlreadyInitialized.code(), 10);
}

#[test]
fn test_join_pool_with_token_transfer() {
    let mut h = setup_env();
    let member = Address::generate(&h.env);

    let sac_admin = token::StellarAssetClient::new(&h.env, &h.token_address);
    sac_admin.mint(&member, &5000_i128);

    let token_client = token::Client::new(&h.env, &h.token_address);
    assert_eq!(token_client.balance(&member), 5000_i128);

    let transfer = h.pool.join_pool(account(&member), 1000_i128).unwrap();
    settle(&h, &transfer);

    assert_eq!(h.pool.get_pool_balance(), 1000_i128);
    assert_eq!(token_client.balance(&member), 4000_i128);
    assert_eq!(token_client.balance(&h.pool_address), 1000_i128);
    assert_eq!(h.pool.get_reputation(&account(&member)), 100_i128);
    assert_eq!(h.pool.get_member_count(), 1_u32);
}

#[test]
fn test_file_and_approve_claim_with_payout() {
    let mut h = setup_env();
    let member_a = Address::generate(&h.env);
    let member_b = Address::generate(&h.env);
    let member_c = Address::generate(&h.env);

    join_member(&mut h, &member_a, 5000);
    join_member(&mut h, &member_b, 5000);
    join_member(&mut h, &member_c, 5000);

    assert_eq!(h.pool.get_pool_balance(), 15_000_i128);
    assert_eq!(h.pool.get_member_count(), 3_u32);

    let t = now(&h.env);
    let claim_id = h.pool
        .file_claim(account(&member_a), 3000_i128, String::from("Medical emergency"), t)
        .unwrap();
    assert_eq!(claim_id, 0);

    let t = now(&h.env);
    h.pool.vote_claim(account(&member_b), claim_id, true, t).unwrap();
    h.pool.vote_claim(account(&member_c), claim_id, true, t).unwrap();

    advance(&h, 3601);

    execute(&mut h, claim_id).unwrap();

    assert_eq!(h.pool.get_pool_balance(), 12_000_i128);

    let token_client = token::Client::new(&h.env, &h.token_address);
    assert_eq!(token_client.balance(&member_a), 3000_i128);

    let claim = h.pool.get_claim(claim_id).unwrap();
    assert_eq!(claim.status, ClaimStatus::Executed);
    assert_eq!(claim.votes_approve, 2);
    assert_eq!(claim.votes_reject, 0);

    assert_eq!(h.pool.get_reputation(&account(&member_a)), 105_i128);
}

#[test]
fn test_reject_claim() {
    let mut h = setup_env();
    let member_a = Address::generate(&h.env);
    let member_b = Address::generate(&h.env);
    let member_c = Address::generate(&h.env);

    join_member(&mut h, &member_a, 5000);
    join_member(&mut h, &member_b, 5000);
    join_member(&mut h, &member_c, 5000);

    let t = now(&h.env);
    let claim_id = h.pool
        .file_claim(account(&member_a), 4000_i128, String::from("Suspicious claim"), t)
        .unwrap();

    h.pool.vote_claim(account(&member_b), claim_id, false, t).unwrap();
    h.pool.vote_claim(account(&member_c), claim_id, false, t).unwrap();

    advance(&h, 3601);

    let outcome = execute(&mut h, claim_id).unwrap();
    assert!(matches!(outcome, ClaimOutcome::Rejected));

    assert_eq!(h.pool.get_pool_balance(), 15_000_i128);

    let claim = h.pool.get_claim(claim_id).unwrap();
    assert_eq!(claim.status, ClaimStatus::Rejected);

    assert_eq!(h.pool.get_reputation(&account(&member_a)), 90_i128);
}

#[test]
fn test_self_vote_prevented() {
    let mut h = setup_env();
    let member_a = Address::generate(&h.env);
    let member_b = Address::generate(&h.env);

    join_member(&mut h, &member_a, 5000);
    join_member(&mut h, &member_b, 5000);

    let t = now(&h.env);
    let claim_id = h.pool
        .file_claim(account(&member_a), 1000_i128, String::from("Test claim"), t)
        .unwrap();

    let r = h.pool.vote_claim(account(&member_a), claim_id, true, t);
    assert_eq!(r, Err(ContractError::SelfVoteNotAllowed));
    assert_eq!(ContractError::SelfVoteNotAllowed.code(), 12);
}

#[test]
fn test_double_vote_prevented() {
    let mut h = setup_env();
    let member_a = Address::generate(&h.env);
    let member_b = Address::generate(&h.env);

    join_member(&mut h, &member_a, 5000);
    join_member(&mut h, &member_b, 5000);

    let t = now(&h.env);
    let claim_id = h.pool
        .file_claim(account(&member_a), 1000_i128, String::from("Test claim"), t)
        .unwrap();

    h.pool.vote_claim(account(&member_b), claim_id, true, t).unwrap();

    let r = h.pool.vote_claim(account(&member_b), claim_id, false, t);
    assert_eq!(r, Err(ContractError::AlreadyVoted));
    assert_eq!(ContractError::AlreadyVoted.code(), 7);
}

#[test]
fn test_non_member_cannot_file_claim() {
    let mut h = setup_env();
    let outsider = Address::generate(&h.env);
    let t = now(&h.env);
    let r = h.pool.file_claim(account(&outsider), 1000_i128, String::from("Fraudulent claim"), t);
    assert_eq!(r, Err(ContractError::NotMember));
    assert_eq!(ContractError::NotMember.code(), 2);
}

#[test]
fn test_cannot_execute_before_deadline() {
    let mut h = setup_env();
    let member_a = Address::generate(&h.env);
    let member_b = Address::generate(&h.env);

    join_member(&mut h, &member_a, 5000);
    join_member(&mut h, &member_b, 5000);

    let t = now(&h.env);
    let claim_id = h.pool
        .file_claim(account(&member_a), 1000_i128, String::from("Test deadline"), t)
        .unwrap();
    h.pool.vote_claim(account(&member_b), claim_id, true, t).unwrap();

    let r = execute(&mut h, claim_id);
    assert!(matches!(r, Err(ContractError::VotingPeriodActive)));
    assert_eq!(ContractError::VotingPeriodActive.code(), 14);
}

#[test]
fn test_cannot_vote_after_deadline() {
    let mut h = setup_env();
    let member_a = Address::generate(&h.env);
    let member_b = Address::generate(&h.env);

    join_member(&mut h, &member_a, 5000);
    join_member(&mut h, &member_b, 5000);

    let t = now(&h.env);
    let claim_id = h.pool
        .file_claim(account(&member_a), 1000_i128, String::from("Test deadline"), t)
        .unwrap();

    advance(&h, 3601);

    let t = now(&h.env);
    let r = h.pool.vote_claim(account(&member_b), claim_id, true, t);
    assert_eq!(r, Err(ContractError::VotingPeriodEnded));
    assert_eq!(ContractError::VotingPeriodEnded.code(), 13);
}
