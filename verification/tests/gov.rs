use spectrum::error::{ContractError, RatioField};
use spectrum::gov::contract::{instantiate, query_state, update_config, ConfigUpdate};
use spectrum::gov::poll::{poll_end, poll_execute, poll_expire, poll_start, poll_vote, Poll, PollExecuteMsg, PollResult, PollStatus};
use spectrum::gov::aust::reconcile;
use spectrum::gov::reconcile::reconcile_balance;
use spectrum::gov::stake::{calc_mintable, mint, stake_tokens, upsert_vault, validate_minted, withdraw};
use spectrum::gov::state::{Account, Config, State, StatePool, Vault, VoteOption};
use spectrum::math::Decimal;

fn config() -> Config {
    Config {
        owner: b"owner".to_vec(),
        spec_token: b"spec".to_vec(),
        quorum: Decimal::percent(30),
        threshold: Decimal::percent(50),
        voting_period: 100,
        effective_delay: 10,
        expiration_period: 20,
        proposal_deposit: 10,
        mint_per_block: 1,
        mint_start: 10,
        mint_end: 110,
        warchest_address: vec![],
        warchest_ratio: Decimal::zero(),
        aust_token: vec![],
        burnvault_address: vec![],
        burnvault_ratio: Decimal::zero(),
    }
}

fn state() -> State {
    State {
        contract_addr: b"gov".to_vec(),
        poll_count: 0,
        poll_deposit: 0,
        last_mint: 0,
        total_weight: 0,
        prev_balance: 0,
        prev_aust_balance: 0,
        vault_balances: 0,
        pools: vec![],
        total_share: 0,
        total_balance: 0,
        aust_index: Decimal::zero(),
    }
}

fn pool(days: u64, total_share: u128, total_balance: u128, active: bool) -> StatePool {
    StatePool { days, total_share, total_balance, active, weight: 1, aust_index: Decimal::zero() }
}

#[test]
fn test_mintable() {
    // First mint
    let mut state = state();
    let config = config();
    assert_eq!(calc_mintable(&state, &config, 0), 0);
    assert_eq!(calc_mintable(&state, &config, 10), 0);
    assert_eq!(calc_mintable(&state, &config, 12), 2);
    assert_eq!(calc_mintable(&state, &config, 110), 100);
    assert_eq!(calc_mintable(&state, &config, 111), 100);

    // Next mint
    state.last_mint = 12;
    assert_eq!(calc_mintable(&state, &config, 20), 8);
    assert_eq!(calc_mintable(&state, &config, 110), 98);
    assert_eq!(calc_mintable(&state, &config, 111), 98);

    // All minted
    state.last_mint = 110;
    assert_eq!(calc_mintable(&state, &config, 0), 0);
    assert_eq!(calc_mintable(&state, &config, 10), 0);
    assert_eq!(calc_mintable(&state, &config, 110), 0);
    assert_eq!(calc_mintable(&state, &config, 111), 0);
}

#[test]
fn mint_in_two_steps_equals_one() {
    let config = config();
    let mut s = state();
    s.last_mint = 5;
    let once = calc_mintable(&s, &config, 60);
    let first = calc_mintable(&s, &config, 30);
    s.last_mint = 30;
    let second = calc_mintable(&s, &config, 60);
    assert_eq!(first + second, once);
    assert_eq!(once, 50);
}

fn dec(atomics: u128) -> Decimal {
    Decimal { atomics }
}

#[test]
fn test_reconcile_balance() {
    let mut s = state();
    s.pools = vec![pool(30, 100, 100, true)];
    s.total_share = 100;
    s.total_balance = 100;
    s.prev_balance = 200;

    // SPEC 1200 and aUST 400 held
    reconcile(&mut s, 1200, 400).unwrap();
    assert_eq!(s.aust_index, Decimal::one());
    assert_eq!(s.pools[0].aust_index, dec(3_000_000_000_000_000_000));
    assert_eq!(s.total_balance, 350);
    assert_eq!(s.pools[0].total_balance, 850);

    // SPEC 1080 and aUST 1600 held
    reconcile(&mut s, 1080, 1600).unwrap();
    assert_eq!(s.aust_index, dec(2_750_000_000_000_000_000));
    assert_eq!(s.pools[0].aust_index, dec(13_250_000_000_000_000_000));
    assert_eq!(s.total_balance, 315);
    assert_eq!(s.pools[0].total_balance, 765);
}

#[test]
fn test_reconcile_balance_2() {
    let mut s = state();
    let mut pool30 = pool(30, 2000, 2000, true);
    pool30.weight = 1;
    let mut pool180 = pool(180, 1000, 1000, true);
    pool180.weight = 2;
    s.pools = vec![pool30, pool180];
    s.total_share = 500;
    s.total_balance = 500;
    s.prev_balance = 3500;

    // SPEC 3500 and aUST 400 held
    reconcile(&mut s, 3500, 400).unwrap();
    assert_eq!(s.aust_index, dec(28_000_000_000_000_000));
    assert_eq!(s.pools[0].aust_index, dec(61_500_000_000_000_000));
    assert_eq!(s.pools[1].aust_index, dec(263_000_000_000_000_000));
}

#[test]
fn spec_reconcile_alone_keeps_the_pools_in_layers() {
    let mut s = state();
    s.pools = vec![pool(30, 100, 100, true)];
    s.total_share = 100;
    s.total_balance = 100;
    s.prev_balance = 200;
    // a gain of 1000 is spread in layers that favour the longer lock
    reconcile_balance(&mut s, 1200).unwrap();
    assert_eq!(s.total_balance, 350);
    assert_eq!(s.pools[0].total_balance, 850);
    assert_eq!(s.prev_balance, 1200);
    // a loss of 120 is taken in proportion to the balances
    reconcile_balance(&mut s, 1080).unwrap();
    assert_eq!(s.total_balance, 315);
    assert_eq!(s.pools[0].total_balance, 765);
    assert_eq!(s.prev_balance, 1080);
    // aUST that was paid out is only recorded
    s.prev_aust_balance = 50;
    reconcile(&mut s, 1080, 20).unwrap();
    assert_eq!(s.prev_aust_balance, 20);
    assert_eq!(s.aust_index, Decimal::zero());
}

#[test]
fn reconcile_gain_and_loss_over_three_pools() {
    let mut s = state();
    s.pools = vec![pool(30, 120, 120, true), pool(45, 0, 0, true)];
    s.total_share = 144;
    s.total_balance = 1440;
    s.prev_balance = 1560;
    // 468 in three layers of 156: the 45-day pool takes the first layer alone,
    // the 30-day pool the second, and all three share the third
    reconcile_balance(&mut s, 2028).unwrap();
    assert_eq!(s.pools[1].total_balance, 156);
    assert_eq!(s.pools[0].total_balance, 288);
    assert_eq!(s.total_balance, 1584);
    // 100 staked into the 45-day pool, then a loss of 400
    s.pools[1].total_balance = 256;
    s.prev_balance = 2128;
    reconcile_balance(&mut s, 1728).unwrap();
    assert_eq!(s.pools[0].total_balance, 234);
    assert_eq!(s.pools[1].total_balance, 208);
    assert_eq!(s.total_balance, 1286);
}

#[test]
fn reconcile_gain_into_empty_pools_goes_to_longest() {
    let mut s = state();
    s.pools = vec![pool(30, 0, 0, true), pool(45, 0, 0, true), pool(60, 0, 0, false)];
    s.prev_balance = 10;
    reconcile_balance(&mut s, 60).unwrap();
    assert_eq!(s.pools[1].total_balance, 50);
    assert_eq!(s.pools[0].total_balance, 0);
    assert_eq!(s.pools[2].total_balance, 0);
    assert_eq!(s.total_balance, 0);
}

#[test]
fn reconcile_without_active_pools_goes_to_day_zero() {
    let mut s = state();
    s.pools = vec![pool(30, 100, 100, false)];
    s.total_share = 100;
    s.total_balance = 100;
    s.prev_balance = 200;
    reconcile_balance(&mut s, 260).unwrap();
    assert_eq!(s.total_balance, 160);
    assert_eq!(s.pools[0].total_balance, 100);
    // unchanged balance changes nothing
    reconcile_balance(&mut s, 260).unwrap();
    assert_eq!(s.total_balance, 160);
}

#[test]
fn stake_and_withdraw_day_zero() {
    let mut s = state();
    let mut a = Account::create(&s);
    // 100 tokens arrive and are staked
    let share = stake_tokens(&mut s, &mut a, 100, 100, 0, 1000).unwrap();
    assert_eq!(share, 100);
    assert_eq!(a.share, 100);
    assert_eq!(s.total_share, 100);
    assert_eq!(s.total_balance, 100);
    assert_eq!(s.prev_balance, 100);
    // the balance grows by 50: shares are now worth 1.5 each
    let mut acc = Some(a);
    let got = withdraw(&mut s, &mut acc, &vec![], 150, Some(30), 0, 1000).unwrap();
    assert_eq!(got, 30);
    let a = acc.unwrap();
    // 30 tokens need 20 shares
    assert_eq!(a.share, 80);
    assert_eq!(s.total_balance, 120);
    assert_eq!(s.total_share, 80);
}

#[test]
fn stake_zero_is_refused() {
    let mut s = state();
    let mut a = Account::create(&s);
    assert_eq!(stake_tokens(&mut s, &mut a, 0, 0, 0, 0), Err(ContractError::InsufficientFunds));
}

#[test]
fn stake_into_missing_pool_is_refused() {
    let mut s = state();
    let mut a = Account::create(&s);
    assert_eq!(stake_tokens(&mut s, &mut a, 10, 10, 30, 0), Err(ContractError::PoolNotFound));
}

#[test]
fn refused_stake_leaves_state_and_account_unchanged() {
    let mut s = state();
    let mut a = Account::create(&s);
    stake_tokens(&mut s, &mut a, 100, 100, 0, 0).unwrap();
    // 50 more tokens arrived, but the stake goes to a pool that does not exist
    assert_eq!(stake_tokens(&mut s, &mut a, 160, 10, 30, 0), Err(ContractError::PoolNotFound));
    assert_eq!(s.prev_balance, 100);
    assert_eq!(s.total_balance, 100);
    assert_eq!(a.share, 100);
    assert!(a.pools.is_empty());
}

#[test]
fn stake_into_closed_pool_is_refused() {
    let mut s = state();
    s.pools = vec![pool(30, 0, 0, false)];
    let mut a = Account::create(&s);
    assert_eq!(stake_tokens(&mut s, &mut a, 10, 10, 30, 0), Err(ContractError::PoolNotActive));
}

#[test]
fn withdraw_more_than_balance_is_refused() {
    let mut s = state();
    let mut a = Account::create(&s);
    stake_tokens(&mut s, &mut a, 100, 100, 0, 0).unwrap();
    let mut acc = Some(a);
    // the balance grew by 20, yet the refusal keeps the state as it was
    assert_eq!(withdraw(&mut s, &mut acc, &vec![], 120, Some(121), 0, 0), Err(ContractError::WithdrawTooMuch));
    assert_eq!(s.prev_balance, 100);
    assert_eq!(s.total_balance, 100);
    assert_eq!(acc.unwrap().share, 100);
}

#[test]
fn withdraw_without_account_is_refused() {
    let mut s = state();
    let mut acc: Option<Account> = None;
    assert_eq!(withdraw(&mut s, &mut acc, &vec![], 100, None, 0, 0), Err(ContractError::NothingStaked));
    assert!(acc.is_none());
    assert_eq!(s.prev_balance, 0);
}

#[test]
fn withdraw_all_by_default() {
    let mut s = state();
    let mut a = Account::create(&s);
    stake_tokens(&mut s, &mut a, 100, 100, 0, 0).unwrap();
    let mut acc = Some(a);
    assert_eq!(withdraw(&mut s, &mut acc, &vec![], 100, None, 0, 0), Ok(100));
    assert_eq!(acc.unwrap().share, 0);
    assert_eq!(s.total_balance, 0);
}

#[test]
fn mint_credits_warchest_and_vaults() {
    let mut config = config();
    config.warchest_address = b"warchest".to_vec();
    config.warchest_ratio = Decimal::percent(10);
    let mut s = state();
    s.total_weight = 4;
    s.last_mint = 10;
    let vaults = vec![Vault { weight: 1, balance: 0 }, Vault { weight: 3, balance: 0 }];
    let o = mint(&mut s, &config, 110, 0, &vaults).unwrap();
    assert_eq!(o.mintable, 100);
    assert_eq!(o.warchest_share, 10);
    assert_eq!(o.vault_shares, vec![22, 67]);
    assert_eq!(s.total_share, 99);
    assert_eq!(s.total_balance, 100);
    assert_eq!(s.last_mint, 110);
    // nothing more at the same height
    let o = mint(&mut s, &config, 110, 100, &vaults).unwrap();
    assert_eq!(o.mintable, 0);
}

#[test]
fn validate_minted_requires_mint_first() {
    let config = config();
    let mut s = state();
    s.last_mint = 20;
    assert_eq!(validate_minted(&s, &config, 30), Err(ContractError::MintRequired));
    assert_eq!(validate_minted(&s, &config, 20), Ok(()));
    s.last_mint = 110;
    assert_eq!(validate_minted(&s, &config, 500), Ok(()));
}

#[test]
fn upsert_vault_moves_total_weight() {
    let config = config();
    let mut s = state();
    s.last_mint = 50;
    let mut v1 = Vault { weight: 0, balance: 0 };
    let mut v2 = Vault { weight: 0, balance: 0 };
    assert_eq!(upsert_vault(&mut s, &config, &b"owner".to_vec(), 50, &mut v1, 1), Ok(true));
    assert_eq!(upsert_vault(&mut s, &config, &b"owner".to_vec(), 50, &mut v2, 4), Ok(true));
    assert_eq!(s.total_weight, 5);
    assert_eq!(upsert_vault(&mut s, &config, &b"owner".to_vec(), 50, &mut v1, 5), Ok(true));
    assert_eq!(s.total_weight, 9);
    assert_eq!(v1.weight, 5);
    assert_eq!(upsert_vault(&mut s, &config, &b"other".to_vec(), 50, &mut v1, 9), Err(ContractError::Unauthorized));
    assert_eq!(s.total_weight, 9);
    assert_eq!(v1.weight, 5);
    // a weight of zero removes the vault
    assert_eq!(upsert_vault(&mut s, &config, &b"owner".to_vec(), 50, &mut v2, 0), Ok(false));
    assert_eq!(s.total_weight, 5);
    assert_eq!(upsert_vault(&mut s, &config, &b"owner".to_vec(), 60, &mut v2, 3), Err(ContractError::MintRequired));
}

fn start_poll(s: &mut State, config: &Config, height: u64) -> Poll {
    poll_start(
        s,
        config,
        b"creator".to_vec(),
        10,
        "title".to_string(),
        "description".to_string(),
        None,
        vec![PollExecuteMsg { contract: "c".to_string(), msg: "m".to_string() }],
        height,
    )
    .unwrap()
}

#[test]
fn poll_start_checks_text_and_deposit() {
    let config = config();
    let mut s = state();
    let short = poll_start(&mut s, &config, vec![], 10, "abc".to_string(), "description".to_string(), None, vec![], 0);
    assert!(matches!(short, Err(ContractError::TitleTooShort)));
    let low = poll_start(&mut s, &config, vec![], 9, "title".to_string(), "description".to_string(), None, vec![], 0);
    assert!(matches!(low, Err(ContractError::DepositTooLow)));
    let link = poll_start(&mut s, &config, vec![], 10, "title".to_string(), "description".to_string(), Some("http://".to_string()), vec![], 0);
    assert!(matches!(link, Err(ContractError::LinkTooShort)));
    let p = start_poll(&mut s, &config, 5);
    assert_eq!(p.id, 1);
    assert_eq!(p.end_height, 105);
    assert_eq!(p.status, PollStatus::InProgress);
    assert_eq!(s.poll_count, 1);
    assert_eq!(s.poll_deposit, 10);
}

#[test]
fn poll_passes_and_executes() {
    let mut config = config();
    config.mint_end = 0;
    let mut s = state();
    let mut a = Account::create(&s);
    stake_tokens(&mut s, &mut a, 100, 100, 0, 0).unwrap();
    let mut p = start_poll(&mut s, &config, 0);
    // the deposit arrived too: balance 110
    poll_vote(&mut s, &mut a, &mut p, 1, false, VoteOption::Yes, 60, 110, 1).unwrap();
    assert_eq!(p.yes_votes, 60);
    assert_eq!(a.locked_balance.len(), 1);
    assert_eq!(poll_vote(&mut s, &mut a, &mut p, 1, true, VoteOption::Yes, 1, 110, 1), Err(ContractError::AlreadyVoted));
    // yes holds more than the threshold of the stake: the poll may end early
    let o = poll_end(&mut s, &config, &mut p, 110, 2).unwrap();
    assert_eq!(o.result, PollResult::Passed);
    assert_eq!(o.return_amount, 10);
    assert_eq!(p.status, PollStatus::Passed);
    assert_eq!(p.total_balance_at_end_poll, Some(100));
    assert_eq!(p.end_height, 2);
    assert_eq!(s.poll_deposit, 0);
    assert_eq!(poll_execute(&mut p, &config, 5), Err(ContractError::EffectiveDelayNotExpired));
    assert_eq!(poll_execute(&mut p, &config, 12), Ok(()));
    assert_eq!(p.status, PollStatus::Executed);
    assert_eq!(poll_expire(&mut p, &config, 100), Err(ContractError::PollNotPassed));
}

#[test]
fn poll_without_quorum_is_rejected() {
    let mut config = config();
    config.mint_end = 0;
    let mut s = state();
    let mut a = Account::create(&s);
    stake_tokens(&mut s, &mut a, 100, 100, 0, 0).unwrap();
    let mut p = start_poll(&mut s, &config, 0);
    poll_vote(&mut s, &mut a, &mut p, 1, false, VoteOption::Yes, 10, 110, 1).unwrap();
    assert!(matches!(poll_end(&mut s, &config, &mut p, 110, 50), Err(ContractError::VotingPeriodNotExpired)));
    let o = poll_end(&mut s, &config, &mut p, 110, 100).unwrap();
    assert_eq!(o.result, PollResult::QuorumNotReached);
    // returned in proportion of the yes votes to the quorum: 10 * 10 / 30
    assert_eq!(o.return_amount, 3);
    assert_eq!(p.status, PollStatus::Rejected);
    assert!(matches!(poll_end(&mut s, &config, &mut p, 110, 101), Err(ContractError::PollNotInProgress)));
}

#[test]
fn rejected_poll_without_messages_returns_full_deposit() {
    let mut config = config();
    config.mint_end = 0;
    let mut s = state();
    let mut a = Account::create(&s);
    stake_tokens(&mut s, &mut a, 100, 100, 0, 0).unwrap();
    let mut p = poll_start(&mut s, &config, b"creator".to_vec(), 10, "title".to_string(), "description".to_string(), None, vec![], 0).unwrap();
    // no votes at all: the quorum is missed, yet the whole deposit goes back
    let o = poll_end(&mut s, &config, &mut p, 110, 100).unwrap();
    assert_eq!(o.result, PollResult::QuorumNotReached);
    assert_eq!(o.return_amount, 10);
    assert_eq!(p.status, PollStatus::Rejected);
    assert_eq!(s.poll_deposit, 0);
}

#[test]
fn refused_vote_changes_nothing() {
    let mut config = config();
    config.mint_end = 0;
    let mut s = state();
    let mut a = Account::create(&s);
    stake_tokens(&mut s, &mut a, 100, 100, 0, 0).unwrap();
    let mut p = start_poll(&mut s, &config, 0);
    // 20 more tokens arrived; the vote still asks for more than the stake is worth
    assert_eq!(poll_vote(&mut s, &mut a, &mut p, 1, false, VoteOption::No, 121, 130, 1), Err(ContractError::InsufficientStake));
    assert_eq!(s.prev_balance, 100);
    assert_eq!(s.total_balance, 100);
    assert!(a.locked_balance.is_empty());
    assert_eq!(p.no_votes, 0);
}

#[test]
fn poll_expires_after_expiration_period() {
    let mut config = config();
    config.mint_end = 0;
    let mut s = state();
    let mut a = Account::create(&s);
    stake_tokens(&mut s, &mut a, 100, 100, 0, 0).unwrap();
    let mut p = start_poll(&mut s, &config, 0);
    poll_vote(&mut s, &mut a, &mut p, 1, false, VoteOption::No, 40, 110, 1).unwrap();
    let o = poll_end(&mut s, &config, &mut p, 110, 100).unwrap();
    assert_eq!(o.result, PollResult::ThresholdNotReached);
    assert_eq!(poll_expire(&mut p, &config, 120), Err(ContractError::PollNotPassed));
}

#[test]
fn vote_above_stake_is_refused() {
    let mut config = config();
    config.mint_end = 0;
    let mut s = state();
    let mut a = Account::create(&s);
    stake_tokens(&mut s, &mut a, 100, 100, 0, 0).unwrap();
    let mut p = start_poll(&mut s, &config, 0);
    assert_eq!(poll_vote(&mut s, &mut a, &mut p, 1, false, VoteOption::Yes, 101, 110, 1), Err(ContractError::InsufficientStake));
    assert_eq!(poll_vote(&mut s, &mut a, &mut p, 2, false, VoteOption::Yes, 1, 110, 1), Err(ContractError::PollNotFound));
    assert_eq!(poll_vote(&mut s, &mut a, &mut p, 1, false, VoteOption::Yes, 1, 110, 101), Err(ContractError::PollNotInProgress));
}

#[test]
fn instantiate_checks_configuration() {
    let mut c = config();
    c.effective_delay = 20000;
    let s = instantiate(&c, b"gov".to_vec(), 7).unwrap();
    assert_eq!(s.last_mint, 7);
    assert_eq!(s.poll_count, 0);
    c.quorum = Decimal::percent(120);
    assert!(matches!(instantiate(&c, b"gov".to_vec(), 7), Err(ContractError::PercentageOutOfRange(RatioField::Quorum))));
    c.quorum = Decimal::percent(30);
    c.threshold = Decimal::percent(101);
    assert!(matches!(instantiate(&c, b"gov".to_vec(), 7), Err(ContractError::PercentageOutOfRange(RatioField::Threshold))));
    c.threshold = Decimal::percent(50);
    c.quorum = Decimal::percent(30);
    c.effective_delay = 100;
    assert!(matches!(instantiate(&c, b"gov".to_vec(), 7), Err(ContractError::EffectiveDelayTooShort)));
    c.effective_delay = 20000;
    c.mint_end = 5;
    assert!(matches!(instantiate(&c, b"gov".to_vec(), 7), Err(ContractError::InvalidMintParameters)));
}

fn none() -> ConfigUpdate {
    ConfigUpdate {
        owner: None,
        spec_token: None,
        quorum: None,
        threshold: None,
        voting_period: None,
        effective_delay: None,
        expiration_period: None,
        proposal_deposit: None,
        warchest_address: None,
        burnvault_address: None,
        burnvault_ratio: None,
    }
}

#[test]
fn update_config_checks_owner_and_values() {
    let mut c = config();
    let s = state();
    assert_eq!(update_config(&mut c, &s, &b"x".to_vec(), 0, none()), Err(ContractError::Unauthorized));
    let mut u = none();
    u.voting_period = Some(7);
    assert_eq!(update_config(&mut c, &s, &b"owner".to_vec(), 0, u), Ok(()));
    assert_eq!(c.voting_period, 7);
    let mut u = none();
    u.threshold = Some(Decimal::percent(101));
    assert_eq!(update_config(&mut c, &s, &b"owner".to_vec(), 0, u), Err(ContractError::PercentageOutOfRange(RatioField::Threshold)));
    let mut u = none();
    u.spec_token = Some(b"other".to_vec());
    u.owner = Some(b"new".to_vec());
    u.quorum = Some(Decimal::percent(40));
    assert_eq!(update_config(&mut c, &s, &b"owner".to_vec(), 0, u), Err(ContractError::AlreadyAssigned));
    // the refused update changes nothing, not even the owner it named
    assert_eq!(c.owner, b"owner".to_vec());
    assert_eq!(c.quorum, Decimal::percent(30));
    assert_eq!(c.spec_token, b"spec".to_vec());
    let mut u = none();
    u.effective_delay = Some(1);
    assert_eq!(update_config(&mut c, &s, &b"owner".to_vec(), 0, u), Err(ContractError::EffectiveDelayTooShort));
    let mut u = none();
    u.burnvault_ratio = Some(Decimal::percent(10));
    assert_eq!(update_config(&mut c, &s, &b"owner".to_vec(), 0, u), Err(ContractError::BurnvaultAddressRequired));
    let mut c2 = config();
    c2.owner = b"gov".to_vec();
    let mut u = none();
    u.owner = Some(b"new".to_vec());
    assert_eq!(update_config(&mut c2, &s, &b"gov".to_vec(), 0, u), Err(ContractError::CannotUpdateOwner));
}

#[test]
fn only_spec_token_delivers_hooks() {
    let c = config();
    assert_eq!(spectrum::gov::contract::authorize_spec_token(&c, &b"spec".to_vec()), Ok(()));
    assert_eq!(spectrum::gov::contract::authorize_spec_token(&c, &b"other".to_vec()), Err(ContractError::Unauthorized));
}

#[test]
fn query_state_reads_without_storing() {
    let config = config();
    let mut s = state();
    s.total_share = 100;
    s.total_balance = 100;
    s.prev_balance = 100;
    s.poll_deposit = 10;
    // SPEC 160 held, 10 of it poll deposits: 150 staked, nothing to mint yet
    assert_eq!(query_state(&s, &config, 160, 0), Ok(150));
    assert_eq!(s.prev_balance, 100);
    assert_eq!(s.total_balance, 100);
    assert_eq!(query_state(&s, &config, 5, 0), Err(ContractError::Overflow));
}
