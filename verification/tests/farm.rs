use spectrum::error::{ContractError, RatioField};
use spectrum::farm::bond::{bond, deposit_spec_reward, spec_reward_to_pool, unbond, SpecBalance};
use spectrum::farm::compound::{compound, compound_messages, compound_split, fee_split, settle_commission, re_invest_asset, remaining_allowance, send_fee, split_swap_return, total_fee, CompoundMessages, CompoundRules, CompoundSplit, FeeRule, ProvideRule};
use spectrum::farm::contract::{init, register_asset, update_config, validate_fees, FarmConfigUpdate};
use spectrum::farm::harvest::{harvest_allowances, harvest_commission_return, harvest_all, HarvestItem};
use spectrum::farm::state::{Config, PoolInfo, RewardInfo, State};
use spectrum::farm::withdraw::{reward_report, withdraw_reward, PoolReward};
use spectrum::math::Decimal;

fn config() -> Config {
    Config {
        owner: b"owner".to_vec(),
        spectrum_token: b"spec".to_vec(),
        spectrum_gov: b"gov".to_vec(),
        farm_token: b"farm".to_vec(),
        farm_staking: b"staking".to_vec(),
        controller: vec![],
        platform: vec![],
        community_fee: Decimal::percent(5),
        platform_fee: Decimal::percent(3),
        controller_fee: Decimal::percent(2),
        deposit_fee: Decimal::zero(),
        lock_start: 100,
        lock_end: 200,
    }
}

fn anchor() -> CompoundRules {
    CompoundRules { fees: FeeRule::Configured, provide: ProvideRule::IfAny, records_spec: false }
}

fn pylon() -> CompoundRules {
    CompoundRules { fees: FeeRule::OfSetAddresses, provide: ProvideRule::Always, records_spec: true }
}

fn state() -> State {
    State {
        previous_spec_share: 0,
        spec_share_index: Decimal::zero(),
        total_farm_share: 0,
        total_weight: 1,
        earning: 0,
        earning_spec: 0,
    }
}

fn pool() -> PoolInfo {
    PoolInfo {
        total_auto_bond_share: 0,
        total_stake_bond_share: 0,
        total_stake_bond_amount: 0,
        weight: 1,
        auto_compound: true,
        farm_share: 0,
        state_spec_share_index: Decimal::zero(),
        farm_share_index: Decimal::zero(),
        auto_spec_share_index: Decimal::zero(),
        stake_spec_share_index: Decimal::zero(),
        reinvest_allowance: 0,
    }
}

#[test]
fn compound_split_shares_reward_out_whole() {
    let s = compound_split(1000, 100, 20, Decimal::percent(10)).unwrap();
    assert_eq!(s, CompoundSplit { commission: 100, compound_amount: 720, stake_amount: 180 });
    assert_eq!(s.commission + s.compound_amount + s.stake_amount, 1000);
    let zero = compound_split(0, 100, 20, Decimal::percent(10)).unwrap();
    assert_eq!(zero, CompoundSplit { commission: 0, compound_amount: 0, stake_amount: 0 });
    let no_bond = compound_split(1000, 0, 0, Decimal::percent(10)).unwrap();
    assert_eq!(no_bond.commission, 0);
}

#[test]
fn compound_split_errors() {
    assert_eq!(compound_split(1000, 100, 20, Decimal::percent(150)), Err(ContractError::Overflow));
    assert_eq!(compound_split(1000, 100, 200, Decimal::percent(10)), Err(ContractError::Overflow));
}

#[test]
fn compound_plan_halves_allowance() {
    let mut c = config();
    let p = compound(&c, anchor(), &b"anyone".to_vec(), 11, 1000, 100, 20).unwrap();
    assert_eq!(p.split, CompoundSplit { commission: 100, compound_amount: 720, stake_amount: 180 });
    assert_eq!(p.reinvest_allowance, 731);
    assert_eq!(p.swap_amount, 365);
    assert_eq!(p.total_swap_amount, 465);
    c.controller = b"ctl".to_vec();
    assert_eq!(compound(&c, anchor(), &b"anyone".to_vec(), 11, 1000, 100, 20), Err(ContractError::Unauthorized));
    assert_eq!(compound(&c, anchor(), &b"ctl".to_vec(), 11, 1000, 100, 20), Ok(p));
}

#[test]
fn compound_sends_only_what_is_not_zero() {
    let mut c = config();
    let all = compound_messages(&c, anchor(), 465, 200, 180, 300);
    assert_eq!(all, CompoundMessages {
        swap_farm_token: true,
        buy_spec: true,
        transfer_community_fee: true,
        stake_platform_fee: true,
        stake_controller_fee: true,
        stake_farm_token: true,
        provide_liquidity: true,
    });
    c.platform_fee = Decimal::zero();
    let m = compound_messages(&c, anchor(), 0, 0, 0, 0);
    assert_eq!(m, CompoundMessages {
        swap_farm_token: false,
        buy_spec: false,
        transfer_community_fee: false,
        stake_platform_fee: false,
        stake_controller_fee: false,
        stake_farm_token: false,
        provide_liquidity: false,
    });
    let m = compound_messages(&c, anchor(), 10, 5, 0, 7);
    assert!(m.swap_farm_token && m.buy_spec && m.transfer_community_fee && m.stake_controller_fee);
    assert!(!m.stake_platform_fee && !m.stake_farm_token && m.provide_liquidity);
}

#[test]
fn swap_return_is_split_by_commission_part() {
    assert_eq!(split_swap_return(930, 100, 465), Ok((200, 730)));
    assert_eq!(split_swap_return(930, 0, 0), Ok((0, 930)));
    assert_eq!(split_swap_return(10, 200, 100), Err(ContractError::Overflow));
}

#[test]
fn remaining_allowance_after_provide() {
    assert_eq!(remaining_allowance(365, 300, 5), Ok(60));
    assert_eq!(remaining_allowance(365, 360, 10), Err(ContractError::Overflow));
}

#[test]
fn fee_split_follows_rates() {
    let f = fee_split(1000, Decimal::percent(5), Decimal::percent(3), Decimal::percent(2));
    assert_eq!((f.community_amount, f.platform_amount, f.controller_amount), (500, 300, 200));
    let f = fee_split(10, Decimal::percent(1), Decimal::percent(1), Decimal::percent(1));
    assert_eq!((f.community_amount, f.platform_amount, f.controller_amount), (3, 3, 4));
    assert_eq!(f.community_amount + f.platform_amount + f.controller_amount, 10);
    assert_eq!(total_fee(Decimal::percent(5), Decimal::percent(3), Decimal::percent(2)), Decimal::percent(10));
}

#[test]
fn tests_compound_test() {
    // the Pylon farm, with a controller set
    let mut c = config();
    c.controller = b"controller".to_vec();
    c.platform = b"platform".to_vec();
    // only the controller compounds
    assert_eq!(compound(&c, pylon(), &b"creator".to_vec(), 0, 0, 0, 0), Err(ContractError::Unauthorized));
    // no reward and no allowance; the messages after the rewards'
    // withdrawal are the allowance of 0, the provision of 0 and 0, and the stake
    let p = compound(&c, pylon(), &b"controller".to_vec(), 0, 0, 0, 0).unwrap();
    assert_eq!(p.total_swap_amount, 0);
    assert_eq!(p.swap_amount, 0);
    assert_eq!(remaining_allowance(p.swap_amount, 0, 0), Ok(0));
    let m = compound_messages(&c, pylon(), p.total_swap_amount, 0, p.split.stake_amount, 0);
    assert_eq!(m, CompoundMessages {
        swap_farm_token: false,
        buy_spec: false,
        transfer_community_fee: false,
        stake_platform_fee: false,
        stake_controller_fee: false,
        stake_farm_token: false,
        provide_liquidity: true,
    });
}

#[test]
fn pylon_compound_of_nothing_still_provides() {
    // no reward and no reinvest allowance: nothing to swap, stake or share out, yet
    // the Pylon farm sends the allowance, the liquidity provision and the bond
    let mut c = config();
    c.controller = b"ctl".to_vec();
    let p = compound(&c, pylon(), &b"ctl".to_vec(), 0, 0, 0, 0).unwrap();
    assert_eq!(p.total_swap_amount, 0);
    let m = compound_messages(&c, pylon(), p.total_swap_amount, 0, p.split.stake_amount, 0);
    assert_eq!(m, CompoundMessages {
        swap_farm_token: false,
        buy_spec: false,
        transfer_community_fee: false,
        stake_platform_fee: false,
        stake_controller_fee: false,
        stake_farm_token: false,
        provide_liquidity: true,
    });
    // the Anchor farm sends none of them
    assert!(!compound_messages(&c, anchor(), 0, 0, 0, 0).provide_liquidity);
}

#[test]
fn pylon_charges_only_fees_of_set_addresses() {
    // no platform address: the Pylon farm charges 5% + 2%, the Anchor farm 10%
    let mut c = config();
    c.controller = b"ctl".to_vec();
    let p = compound(&c, pylon(), &b"ctl".to_vec(), 0, 1000, 100, 20).unwrap();
    assert_eq!(p.split.commission, 70);
    let a = compound(&c, anchor(), &b"ctl".to_vec(), 0, 1000, 100, 20).unwrap();
    assert_eq!(a.split.commission, 100);
    let m = compound_messages(&c, pylon(), 10, 5, 0, 0);
    assert!(m.transfer_community_fee && !m.stake_platform_fee && m.stake_controller_fee);
    let m = compound_messages(&c, anchor(), 10, 5, 0, 0);
    assert!(m.transfer_community_fee && m.stake_platform_fee && m.stake_controller_fee);
}

#[test]
fn send_fee_is_for_the_farm_itself() {
    let farm = b"farm".to_vec();
    let fees = (Decimal::percent(5), Decimal::percent(3), Decimal::percent(2));
    assert_eq!(send_fee(&b"other".to_vec(), &farm, 1000, fees.0, fees.1, fees.2), Err(ContractError::Unauthorized));
    let t = send_fee(&farm, &farm, 1000, fees.0, fees.1, fees.2).unwrap();
    assert_eq!((t.split.community_amount, t.split.platform_amount, t.split.controller_amount), (500, 300, 200));
    assert!(t.transfer_community && t.transfer_platform && t.transfer_controller);
    // a zero platform fee gives a zero part, which is not sent
    let t = send_fee(&farm, &farm, 1000, Decimal::percent(5), Decimal::zero(), Decimal::percent(5)).unwrap();
    assert_eq!((t.split.community_amount, t.split.platform_amount, t.split.controller_amount), (500, 0, 500));
    assert!(t.transfer_community && !t.transfer_platform && t.transfer_controller);
    let t = send_fee(&farm, &farm, 0, fees.0, fees.1, fees.2).unwrap();
    assert!(!t.transfer_community && !t.transfer_platform && !t.transfer_controller);
}

#[test]
fn asset_reinvest_keeps_commission() {
    let r = re_invest_asset(1001);
    assert_eq!((r.net_swap, r.net_liquidity, r.remaining_allowance), (500, 500, 1));
    let r = re_invest_asset(100_000);
    assert_eq!((r.net_swap, r.net_liquidity, r.remaining_allowance), (50_000, 49_850, 150));
}

fn items() -> Vec<HarvestItem> {
    vec![
        HarvestItem { pending_reward: 1000, bond_amount: 100, total_stake_bond_amount: 20, is_farm_token: false },
        HarvestItem { pending_reward: 500, bond_amount: 50, total_stake_bond_amount: 0, is_farm_token: true },
    ]
}

#[test]
fn harvest_sums_every_pool() {
    let (splits, totals) = harvest_all(&items(), Decimal::percent(10)).unwrap();
    assert_eq!(splits.len(), 2);
    assert_eq!(splits[1], CompoundSplit { commission: 50, compound_amount: 450, stake_amount: 0 });
    assert_eq!(totals.commission, 150);
    assert_eq!(totals.swap_amount, 870);
    assert_eq!(totals.stake_amount, 180);
    let allowances = harvest_allowances(&items(), &splits, &vec![5, 7], 1740, totals.swap_amount);
    assert_eq!(allowances, vec![1445, 457]);
    assert_eq!(harvest_commission_return(1740, &totals), 300);
    // the pools of other assets and the commission share no more than the swap returned
    assert!((allowances[0] - 5) + harvest_commission_return(1740, &totals) <= 1740);
}

#[test]
fn harvest_stops_at_first_bad_pool() {
    let mut it = items();
    it.push(HarvestItem { pending_reward: 10, bond_amount: 5, total_stake_bond_amount: 6, is_farm_token: false });
    assert!(matches!(harvest_all(&it, Decimal::percent(10)), Err(ContractError::Overflow)));
}

#[test]
fn bond_checks_rate_and_sender() {
    let mut s = state();
    let mut p = pool();
    let lp = b"lp".to_vec();
    let r = bond(&mut s, &mut p, None, &lp, &lp, None, 100, Decimal::zero(), 0, 0);
    assert_eq!(r, Err(ContractError::AutoStakeDisabled));
    let r = bond(&mut s, &mut p, None, &lp, &lp, Some(Decimal::percent(50)), 100, Decimal::zero(), 0, 0);
    assert_eq!(r, Err(ContractError::AutoStakeDisabled));
    let r = bond(&mut s, &mut p, None, &lp, &b"x".to_vec(), Some(Decimal::one()), 100, Decimal::zero(), 0, 0);
    assert_eq!(r, Err(ContractError::Unauthorized));
}

#[test]
fn bond_earn_withdraw_unbond() {
    let mut s = state();
    let mut p = pool();
    let lp = b"lp".to_vec();
    let one = Some(Decimal::one());
    let r1 = bond(&mut s, &mut p, None, &lp, &lp, one, 100, Decimal::zero(), 0, 0).unwrap();
    assert_eq!(r1.auto_bond_share, 100);
    assert_eq!(p.total_auto_bond_share, 100);
    // the farm gains 100 gov shares; a second staker bonds 50 LP tokens
    let r2 = bond(&mut s, &mut p, None, &lp, &lp, one, 50, Decimal::zero(), 100, 100).unwrap();
    assert_eq!(r2.auto_bond_share, 50);
    assert_eq!(p.total_auto_bond_share, 150);
    assert_eq!(s.previous_spec_share, 100);
    assert_eq!(s.spec_share_index, Decimal::percent(10_000));
    assert_eq!(p.auto_spec_share_index, Decimal::one());
    assert_eq!(r2.auto_spec_share_index, Decimal::one());

    let staked = SpecBalance { share: 100, balance: 200 };
    let report = reward_report(&s, PoolReward { pool: p, reward_info: r1 }, &staked, 150);
    assert_eq!(report.spec_share, 100);
    assert_eq!(report.pending_spec_reward, 200);
    assert_eq!(report.auto_bond_amount, 100);

    let items = vec![PoolReward { pool: p, reward_info: r1 }];
    let (done, share, amount) = withdraw_reward(&s, &items, &staked, Some(150), 150).unwrap();
    assert_eq!((share, amount), (75, 150));
    assert_eq!(done[0].reward_info.spec_share, 25);
    assert_eq!(withdraw_reward(&s, &items, &staked, Some(250), 150).err(), Some(ContractError::WithdrawExceedsReward));
    // a request is paid out exactly
    let (_, _, amount) = withdraw_reward(&s, &items, &staked, Some(77), 150).unwrap();
    assert_eq!(amount, 77);
    let (_, share, amount) = withdraw_reward(&s, &items, &staked, None, 150).unwrap();
    assert_eq!((share, amount), (100, 200));

    let mut r1 = r1;
    assert_eq!(unbond(&mut s, &mut p, &mut r1, 101, 100, 150), Err(ContractError::UnbondTooMuch));
    assert_eq!(unbond(&mut s, &mut p, &mut r1, 40, 100, 150), Ok(false));
    assert_eq!(r1.auto_bond_share, 60);
    assert_eq!(p.total_auto_bond_share, 110);
    assert_eq!(r1.spec_share, 100);
}

#[test]
fn unbond_rounds_burnt_shares_up() {
    let mut s = state();
    s.total_weight = 0;
    let mut p = pool();
    p.total_auto_bond_share = 3;
    let mut r = RewardInfo {
        farm_share_index: Decimal::zero(),
        auto_spec_share_index: Decimal::zero(),
        stake_spec_share_index: Decimal::zero(),
        auto_bond_share: 3,
        stake_bond_share: 0,
        farm_share: 0,
        spec_share: 0,
        accum_spec_share: 0,
    };
    // 3 shares hold 10 LP tokens; taking out 4 burns 2 shares (worth 6), not 1 (worth 3)
    assert_eq!(unbond(&mut s, &mut p, &mut r, 4, 0, 10), Ok(false));
    assert_eq!(r.auto_bond_share, 1);
    assert_eq!(p.total_auto_bond_share, 1);
}

#[test]
fn deposit_tolerates_drop_only_in_queries() {
    let mut s = state();
    s.previous_spec_share = 100;
    assert_eq!(deposit_spec_reward(&mut s, 80, false), Err(ContractError::Overflow));
    assert_eq!(s.previous_spec_share, 100);
    assert_eq!(deposit_spec_reward(&mut s, 80, true), Ok(()));
    assert_eq!(s.previous_spec_share, 80);
    assert_eq!(s.spec_share_index, Decimal::zero());
}

#[test]
fn deposit_fee_is_taken_before_shares() {
    let mut s = state();
    let mut p = pool();
    let lp = b"lp".to_vec();
    let r = bond(&mut s, &mut p, None, &lp, &lp, Some(Decimal::one()), 1000, Decimal::percent(1), 0, 0).unwrap();
    assert_eq!(r.auto_bond_share, 990);
}

#[test]
fn register_single_asset() {
    let c = config();
    let mut s = state();
    s.total_weight = 0;
    let owner = b"owner".to_vec();
    assert!(matches!(register_asset(&c, &mut s, 0, &b"x".to_vec(), 3, true, 0), Err(ContractError::Unauthorized)));
    assert!(matches!(register_asset(&c, &mut s, 1, &owner, 3, true, 0), Err(ContractError::AssetAlreadyRegistered)));
    let p = register_asset(&c, &mut s, 0, &owner, 3, true, 0).unwrap();
    assert_eq!(p.weight, 3);
    assert!(p.auto_compound);
    assert_eq!(s.total_weight, 3);
}

#[test]
fn farm_update_config() {
    let mut c = config();
    let none = || FarmConfigUpdate {
        owner: None,
        platform: None,
        controller: None,
        community_fee: None,
        platform_fee: None,
        controller_fee: None,
        deposit_fee: None,
        lock_start: None,
        lock_end: None,
    };
    assert_eq!(update_config(&mut c, &b"x".to_vec(), none()), Err(ContractError::Unauthorized));
    let mut u = none();
    u.community_fee = Some(Decimal::percent(7));
    u.deposit_fee = Some(Decimal::percent(101));
    assert_eq!(update_config(&mut c, &b"owner".to_vec(), u), Err(ContractError::PercentageOutOfRange(RatioField::DepositFee)));
    assert_eq!(c.community_fee, Decimal::percent(5));
    let mut u = none();
    u.community_fee = Some(Decimal::percent(7));
    u.controller = Some(b"ctl".to_vec());
    assert_eq!(update_config(&mut c, &b"owner".to_vec(), u), Ok(()));
    assert_eq!(c.community_fee, Decimal::percent(7));
    assert_eq!(c.controller, b"ctl".to_vec());
    assert_eq!(validate_fees(Decimal::one(), Decimal::zero(), Decimal::percent(101)), Err(ContractError::PercentageOutOfRange(RatioField::ControllerFee)));
    assert_eq!(validate_fees(Decimal::percent(101), Decimal::percent(101), Decimal::zero()), Err(ContractError::PercentageOutOfRange(RatioField::CommunityFee)));
    assert_eq!(validate_fees(Decimal::one(), Decimal::zero(), Decimal::zero()), Ok(()));
}

#[test]
fn controller_and_fees() {
    let mut c = config();
    assert_eq!(c.authorize_controller(&b"anyone".to_vec()), Ok(()));
    assert_eq!(c.effective_fees(), (Decimal::percent(5), Decimal::zero(), Decimal::zero()));
    c.controller = b"ctl".to_vec();
    c.platform = b"platform".to_vec();
    assert_eq!(c.authorize_controller(&b"anyone".to_vec()), Err(ContractError::Unauthorized));
    assert_eq!(c.authorize_controller(&b"ctl".to_vec()), Ok(()));
    assert_eq!(c.effective_fees(), (Decimal::percent(5), Decimal::percent(3), Decimal::percent(2)));
}

#[test]
fn locked_reward_over_lock_period() {
    let c = config();
    assert_eq!(c.calc_locked_reward(1000, 50), 1000);
    assert_eq!(c.calc_locked_reward(1000, 150), 500);
    assert_eq!(c.calc_locked_reward(1000, 175), 250);
    assert_eq!(c.calc_locked_reward(1000, 250), 0);
}

#[test]
fn earning_accumulates() {
    let mut s = state();
    s.add_earning(10, 3);
    s.add_earning(5, 0);
    assert_eq!((s.earning, s.earning_spec), (15, 3));
}

#[test]
fn migrate_moves_farm_shares_into_pool() {
    let mut s = state();
    s.total_farm_share = 50;
    let mut p = pool();
    p.total_stake_bond_share = 20;
    p.farm_share = 5;
    spectrum::farm::contract::migrate_farm_share(&s, &mut p);
    assert_eq!(p.farm_share_index, Decimal::permille(2_500));
    assert_eq!(p.farm_share, 55);
}

#[test]
fn reinvest_swap_is_half() {
    assert_eq!(spectrum::farm::compound::reinvest_swap_amount(7), 3);
    assert_eq!(spectrum::farm::compound::reinvest_swap_amount(0), 0);
}

#[test]
fn farm_withdraw_and_query() {
    let mut s = state();
    let mut p = pool();
    let lp = b"lp".to_vec();
    let one = Some(Decimal::one());
    let r1 = bond(&mut s, &mut p, None, &lp, &lp, one, 100, Decimal::zero(), 0, 0).unwrap();
    let items = vec![PoolReward { pool: p, reward_info: r1 }];
    // the farm now holds 100 gov shares worth 200 SPEC
    let staked = SpecBalance { share: 100, balance: 200 };
    let reports = spectrum::farm::withdraw::query_reward_info(&s, &items, &staked, 100);
    assert_eq!((reports[0].spec_share, reports[0].pending_spec_reward, reports[0].auto_bond_amount), (100, 200, 100));
    let (done, share, amount) = spectrum::farm::withdraw::withdraw(&mut s, &items, &staked, None, 100).unwrap();
    assert_eq!((share, amount), (100, 200));
    assert_eq!(done[0].reward_info.spec_share, 0);
    assert_eq!(s.previous_spec_share, 0);
    assert_eq!(s.spec_share_index, Decimal::percent(10_000));
}

#[test]
fn farm_init_checks_fees() {
    let mut c = config();
    let s = spectrum::farm::contract::init(&c).unwrap();
    assert_eq!(s.total_weight, 0);
    c.platform_fee = Decimal::percent(101);
    assert!(matches!(spectrum::farm::contract::init(&c), Err(ContractError::PercentageOutOfRange(RatioField::PlatformFee))));
}

fn farm_config(owner: &[u8], spectrum_token: &[u8]) -> Config {
    let mut c = config();
    c.owner = owner.to_vec();
    c.spectrum_token = spectrum_token.to_vec();
    c.spectrum_gov = b"specgov0000".to_vec();
    c.farm_token = b"mirror0001".to_vec();
    c.farm_staking = b"mirror0000".to_vec();
    c
}

#[test]
fn proper_initialization() {
    let c = farm_config(b"owner0000", b"reward0000");
    let s = init(&c).unwrap();
    assert_eq!(s.total_weight, 0);
    assert_eq!(s.total_farm_share, 0);
    assert_eq!(c.owner, b"owner0000".to_vec());
    assert_eq!(c.spectrum_token, b"reward0000".to_vec());
}

#[test]
fn test_bond_tokens() {
    let c = farm_config(b"owner0000", b"reward0000");
    let mut s = init(&c).unwrap();
    let mut p = register_asset(&c, &mut s, 0, &b"owner0000".to_vec(), 1, true, 0).unwrap();
    let staking = b"staking0000".to_vec();
    // bond 100 LP tokens, all for auto-compounding
    let r = bond(&mut s, &mut p, None, &staking, &staking, Some(Decimal::percent(100)), 100, Decimal::zero(), 0, 0).unwrap();
    assert_eq!(r.auto_bond_share, 100);
    assert_eq!(r.stake_bond_share, 0);
    assert_eq!(p.total_auto_bond_share, 100);
    assert_eq!(p.total_stake_bond_share, 0);
    // LP tokens from another staking token are refused
    let r = bond(&mut s, &mut p, None, &staking, &b"staking0001".to_vec(), Some(Decimal::percent(100)), 100, Decimal::zero(), 0, 100);
    assert_eq!(r, Err(ContractError::Unauthorized));
    assert_eq!(p.total_auto_bond_share, 100);
}

#[test]
fn test_deposit_reward() {
    let c = farm_config(b"owner0000", b"reward0000");
    let mut s = init(&c).unwrap();
    let mut p = register_asset(&c, &mut s, 0, &b"owner0000".to_vec(), 1, true, 0).unwrap();
    let staking = b"staking0000".to_vec();
    bond(&mut s, &mut p, None, &staking, &staking, Some(Decimal::one()), 100, Decimal::zero(), 0, 0).unwrap();
    // 1000 reward shares arrive for the 100 bonded LP tokens: 10 per share
    deposit_spec_reward(&mut s, 1000, false).unwrap();
    spec_reward_to_pool(&s, &mut p, 100).unwrap();
    assert_eq!(p.total_auto_bond_share, 100);
    assert_eq!(p.total_stake_bond_share, 0);
    assert_eq!(p.auto_spec_share_index, Decimal::percent(1000));
}

#[test]
fn commission_is_recorded_and_shared_out() {
    let mut c = config();
    c.controller = b"ctl".to_vec();
    c.platform = b"platform".to_vec();
    let mut s = state();
    // 200 base tokens of commission bought 1000 SPEC
    let f = settle_commission(&mut s, &c, anchor(), 200, 1000);
    assert_eq!((s.earning, s.earning_spec), (200, 0));
    assert_eq!((f.community_amount, f.platform_amount, f.controller_amount), (500, 300, 200));
    let f = settle_commission(&mut s, &c, pylon(), 100, 1000);
    assert_eq!((s.earning, s.earning_spec), (300, 1000));
    assert_eq!(f.community_amount + f.platform_amount + f.controller_amount, 1000);
}
