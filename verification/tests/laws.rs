use spectrum::farm::bond::before_share_change;
use spectrum::farm::state::{PoolInfo, RewardInfo};
use spectrum::gov::state::{Account, BalancePool, State, StatePool};
use spectrum::gov::stake::stake_tokens;
use spectrum::math::Decimal;

fn gov_state(pools: Vec<StatePool>) -> State {
    State {
        contract_addr: vec![],
        poll_count: 0,
        poll_deposit: 0,
        last_mint: 0,
        total_weight: 0,
        prev_balance: 0,
        prev_aust_balance: 0,
        vault_balances: 0,
        pools,
        total_share: 0,
        total_balance: 0,
        aust_index: Decimal::zero(),
    }
}

#[test]
fn deduct_undoes_add_on_concrete_pool() {
    let mut s = gov_state(vec![StatePool { days: 30, total_share: 40, total_balance: 70, active: true, weight: 1, aust_index: Decimal::zero() }]);
    s.prev_balance = 70;
    s.add_share(30, 12, 21).unwrap();
    assert_eq!((s.pools[0].total_share, s.pools[0].total_balance, s.prev_balance), (52, 91, 91));
    s.deduct_share(30, 12, 21).unwrap();
    assert_eq!((s.pools[0].total_share, s.pools[0].total_balance, s.prev_balance), (40, 70, 70));
}

#[test]
fn unlock_stays_within_longer_lock() {
    // 100 shares unlocking in 10 days, 100 more for a 30-day pool: the unlock moves
    // to the share-weighted average, 20 days out, never past 30 days
    let mut p = BalancePool { days: 30, share: 100, unlock: 1_000 + 10 * 86_400, aust_index: Decimal::zero(), pending_aust: 0 };
    p.add_share(1_000, 100, 0);
    assert_eq!(p.unlock, 1_000 + 20 * 86_400);
    assert!(p.unlock <= 1_000 + 30 * 86_400);
    assert_eq!(p.share, 200);
}

#[test]
fn new_stake_not_worth_more_than_staked() {
    // a pool whose 3 shares hold 10 tokens: 7 tokens buy 2 shares, worth 5 afterwards
    let mut s = gov_state(vec![]);
    s.total_share = 3;
    s.total_balance = 10;
    s.prev_balance = 10;
    let mut a = Account::create(&s);
    let share = stake_tokens(&mut s, &mut a, 17, 7, 0, 0).unwrap();
    assert_eq!(share, 2);
    let worth = a.calc_balance(0, &s).unwrap();
    assert_eq!(worth, 6);
    assert!(worth <= 7);
}

#[test]
fn settling_twice_accrues_once() {
    let pool = PoolInfo {
        total_auto_bond_share: 10,
        total_stake_bond_share: 10,
        total_stake_bond_amount: 10,
        weight: 1,
        auto_compound: true,
        farm_share: 0,
        state_spec_share_index: Decimal::zero(),
        farm_share_index: Decimal::permille(1_500),
        auto_spec_share_index: Decimal::permille(2_500),
        stake_spec_share_index: Decimal::permille(500),
        reinvest_allowance: 0,
    };
    let mut r = RewardInfo {
        farm_share_index: Decimal::zero(),
        auto_spec_share_index: Decimal::zero(),
        stake_spec_share_index: Decimal::zero(),
        auto_bond_share: 4,
        stake_bond_share: 2,
        farm_share: 0,
        spec_share: 0,
        accum_spec_share: 0,
    };
    before_share_change(&pool, &mut r).unwrap();
    // 4 * 2.5 + 2 * 0.5 SPEC shares, 2 * 1.5 farm shares
    assert_eq!((r.spec_share, r.farm_share), (11, 3));
    let once = r;
    before_share_change(&pool, &mut r).unwrap();
    assert_eq!(r, once);
}

#[test]
fn spreading_stays_within_deposit() {
    let mut s = spectrum::spec_farm::state::State { previous_spec_share: 0, spec_share_index: Decimal::zero(), total_weight: 3 };
    spectrum::spec_farm::bond::deposit_reward(&mut s, 10, false).unwrap();
    // 10 shares over weight 3: 3.333... per weight, and 3 weights take no more than 10
    assert_eq!(s.spec_share_index.atomics, 3_333_333_333_333_333_333);
    assert!(s.spec_share_index.atomics * 3 <= 10 * 1_000_000_000_000_000_000);
}
