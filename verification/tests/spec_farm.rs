use spectrum::error::ContractError;
use spectrum::farm::bond::SpecBalance;
use spectrum::math::Decimal;
use spectrum::spec_farm::bond::{bond, deduct_withdrawn, deposit_reward, reward_report, unbond, withdraw_reward, PoolReward};
use spectrum::spec_farm::contract::{instantiate_state, register_asset, update_config};
use spectrum::spec_farm::state::{Config, PoolInfo, RewardInfo, State};

const LP: &[u8] = b"lp_token";

fn staked(n: u128) -> SpecBalance {
    SpecBalance { share: n, balance: n }
}

#[test]
fn spec_farm_scenario() {
    let mut config = Config {
        owner: b"creator".to_vec(),
        spectrum_token: b"token".to_vec(),
        spectrum_gov: b"gov".to_vec(),
        lock_start: 0,
        lock_end: 0,
    };
    let mut state = instantiate_state();
    assert_eq!(state, State { previous_spec_share: 0, spec_share_index: Decimal::zero(), total_weight: 0 });

    // only the owner may hand the farm over to the gov contract
    assert_eq!(update_config(&mut config, &b"gov".to_vec(), Some(b"gov".to_vec())), Err(ContractError::Unauthorized));
    assert_eq!(update_config(&mut config, &b"creator".to_vec(), Some(b"gov".to_vec())), Ok(()));
    assert_eq!(config.owner, b"gov".to_vec());
    // and the gov contract keeps it
    assert_eq!(update_config(&mut config, &b"gov".to_vec(), Some(b"creator".to_vec())), Err(ContractError::CannotUpdateOwner));

    assert!(matches!(register_asset(&config, &mut state, None, &b"creator".to_vec(), 1, 0), Err(ContractError::Unauthorized)));
    let mut pool = register_asset(&config, &mut state, None, &b"gov".to_vec(), 1, 0).unwrap();
    assert_eq!(pool, PoolInfo { total_bond_amount: 0, weight: 1, state_spec_share_index: Decimal::zero(), spec_share_index: Decimal::zero() });
    assert_eq!(state.total_weight, 1);

    // only the staking token may bond
    let lp = LP.to_vec();
    assert!(matches!(bond(&mut state, &mut pool, None, &lp, &b"creator".to_vec(), 100, 100), Err(ContractError::Unauthorized)));
    let mut user1 = bond(&mut state, &mut pool, None, &lp, &lp, 100, 100).unwrap();
    assert_eq!(user1.bond_amount, 100);

    // the farm's gov shares grow to 500
    let mut q = state;
    deposit_reward(&mut q, 500, true).unwrap();
    let report = reward_report(&q, PoolReward { pool, reward_info: user1 }, &staked(500));
    assert_eq!(report.spec_share, 500);
    assert_eq!(report.pending_spec_reward, 500);
    assert_eq!(report.bond_amount, 100);
    assert_eq!(report.spec_share_index, Decimal::zero());

    // unbond 20
    assert_eq!(unbond(&mut state, &mut pool, &mut user1, 20, 500), Ok(false));
    assert_eq!(user1.bond_amount, 80);
    assert_eq!(user1.spec_share, 500);
    assert_eq!(user1.spec_share_index, Decimal::percent(500));

    // withdraw more than available, failed
    let items = vec![PoolReward { pool, reward_info: user1 }];
    assert_eq!(withdraw_reward(&state, &items, &staked(500), Some(501)).err(), Some(ContractError::WithdrawExceedsReward));

    // withdraw partial
    let (done, share, amount) = withdraw_reward(&state, &items, &staked(500), Some(200)).unwrap();
    assert_eq!((share, amount), (200, 200));
    deduct_withdrawn(&mut state, share).unwrap();
    pool = done[0].pool;
    user1 = done[0].reward_info;
    assert_eq!(user1.spec_share, 300);

    // withdraw all
    let items = vec![PoolReward { pool, reward_info: user1 }];
    let (done, share, amount) = withdraw_reward(&state, &items, &staked(300), None).unwrap();
    assert_eq!((share, amount), (300, 300));
    deduct_withdrawn(&mut state, share).unwrap();
    pool = done[0].pool;
    user1 = done[0].reward_info;
    assert_eq!(state.previous_spec_share, 0);

    // bond user2 when the farm holds 450 gov shares
    let user2 = bond(&mut state, &mut pool, None, &lp, &lp, 70, 450).unwrap();
    assert_eq!(user2.bond_amount, 70);

    // the farm's gov shares grow to 600
    let mut q = state;
    deposit_reward(&mut q, 600, true).unwrap();
    let report1 = reward_report(&q, PoolReward { pool, reward_info: user1 }, &staked(600));
    assert_eq!(report1.spec_share, 530);
    assert_eq!(report1.pending_spec_reward, 530);
    assert_eq!(report1.bond_amount, 80);
    assert_eq!(report1.spec_share_index, Decimal::percent(500));
    let report2 = reward_report(&q, PoolReward { pool, reward_info: user2 }, &staked(600));
    assert_eq!(report2.spec_share, 70);
    assert_eq!(report2.pending_spec_reward, 70);
    assert_eq!(report2.bond_amount, 70);
    assert_eq!(report2.spec_share_index, Decimal::permille(10_625));
}

#[test]
fn unbond_more_than_bonded_is_refused() {
    let mut state = State { previous_spec_share: 0, spec_share_index: Decimal::zero(), total_weight: 1 };
    let mut pool = PoolInfo { total_bond_amount: 10, weight: 1, state_spec_share_index: Decimal::zero(), spec_share_index: Decimal::zero() };
    let mut r = RewardInfo { spec_share_index: Decimal::zero(), bond_amount: 10, spec_share: 0, accum_spec_share: 0 };
    assert_eq!(unbond(&mut state, &mut pool, &mut r, 11, 0), Err(ContractError::UnbondTooMuch));
    assert_eq!(unbond(&mut state, &mut pool, &mut r, 10, 0), Ok(true));
}

#[test]
fn deposit_refuses_drop_outside_queries() {
    let mut state = State { previous_spec_share: 10, spec_share_index: Decimal::zero(), total_weight: 2 };
    assert_eq!(deposit_reward(&mut state, 5, false), Err(ContractError::Overflow));
    assert_eq!(deposit_reward(&mut state, 20, false), Ok(()));
    assert_eq!(state.spec_share_index, Decimal::percent(500));
    assert_eq!(state.previous_spec_share, 20);
    // the same share count again credits nothing
    assert_eq!(deposit_reward(&mut state, 20, false), Ok(()));
    assert_eq!(state.spec_share_index, Decimal::percent(500));
    assert_eq!(deduct_withdrawn(&mut state, 21), Err(ContractError::Overflow));
}

#[test]
fn register_updates_weight() {
    let config = Config { owner: b"o".to_vec(), spectrum_token: vec![], spectrum_gov: vec![], lock_start: 0, lock_end: 0 };
    let mut state = State { previous_spec_share: 0, spec_share_index: Decimal::zero(), total_weight: 5 };
    let existing = PoolInfo { total_bond_amount: 0, weight: 2, state_spec_share_index: Decimal::zero(), spec_share_index: Decimal::zero() };
    let p = register_asset(&config, &mut state, Some(existing), &b"o".to_vec(), 4, 0).unwrap();
    assert_eq!(p.weight, 4);
    assert_eq!(state.total_weight, 7);
}

#[test]
fn spec_farm_locked_reward() {
    let config = Config { owner: vec![], spectrum_token: vec![], spectrum_gov: vec![], lock_start: 10, lock_end: 20 };
    assert_eq!(config.calc_locked_reward(100, 15), 50);
    assert_eq!(config.calc_locked_reward(100, 5), 100);
    assert_eq!(config.calc_locked_reward(100, 20), 0);
}

#[test]
fn spec_farm_withdraw_and_query() {
    let mut state = State { previous_spec_share: 0, spec_share_index: Decimal::zero(), total_weight: 1 };
    let pool = PoolInfo { total_bond_amount: 100, weight: 1, state_spec_share_index: Decimal::zero(), spec_share_index: Decimal::zero() };
    let user = RewardInfo { spec_share_index: Decimal::zero(), bond_amount: 100, spec_share: 0, accum_spec_share: 0 };
    let items = vec![PoolReward { pool, reward_info: user }];
    let reports = spectrum::spec_farm::bond::query_reward_info(&state, &items, &staked(500));
    assert_eq!(reports.len(), 1);
    assert_eq!((reports[0].spec_share, reports[0].pending_spec_reward, reports[0].bond_amount), (500, 500, 100));
    // the query stores nothing
    assert_eq!(state.previous_spec_share, 0);
    assert_eq!(spectrum::spec_farm::bond::withdraw(&mut state, &items, &staked(500), Some(501)).err(), Some(ContractError::WithdrawExceedsReward));
    let mut state = State { previous_spec_share: 0, spec_share_index: Decimal::zero(), total_weight: 1 };
    let (done, share, amount) = spectrum::spec_farm::bond::withdraw(&mut state, &items, &staked(500), Some(200)).unwrap();
    assert_eq!((share, amount), (200, 200));
    assert_eq!(done[0].reward_info.spec_share, 300);
    assert_eq!(state.previous_spec_share, 300);
    assert_eq!(state.spec_share_index, Decimal::percent(50_000));
}
