//! The arithmetic of compounding farm rewards: how a harvested reward splits into
//! commission, auto-compound and auto-stake parts, how the reinvest allowance is
//! halved for swapping, and how the SPEC bought with the commission is shared out.
//!
//! Swap simulations and tax queries happen between these steps; each step takes
//! what came back from them as plain amounts.

use vstd::prelude::*;
use crate::common::addr_eq;
use crate::error::ContractError;
use crate::farm::state::{Config, State};
use crate::math::{mul_dec, multiply_ratio, ratio, spec_mul_dec, Decimal};

verus! {

/// The sum of the three fee rates, in atomics.
pub open spec fn fee_sum(community_fee: Decimal, platform_fee: Decimal, controller_fee: Decimal) -> int {
    community_fee.atomics + platform_fee.atomics + controller_fee.atomics
}

/// The total commission rate: community, platform and controller fees together.
pub fn total_fee(community_fee: Decimal, platform_fee: Decimal, controller_fee: Decimal) -> (r: Decimal)
    requires
        fee_sum(community_fee, platform_fee, controller_fee) <= u128::MAX,
    ensures
        r.atomics == fee_sum(community_fee, platform_fee, controller_fee),
{
    community_fee.add(platform_fee).add(controller_fee)
}

/// How one harvested reward is shared out.
#[derive(Clone, Copy, Debug, PartialEq, Eq, Structural)]
pub struct CompoundSplit {
    /// Taken as commission at the total fee rate.
    pub commission: u128,
    /// The auto-compounders' part of the rest, by their part of the bonded LP tokens.
    pub compound_amount: u128,
    /// The auto-stakers' part of the rest.
    pub stake_amount: u128,
}

/// The split of `reward` when `bond_amount` LP tokens are bonded in all, of which
/// `total_stake_bond_amount` for auto-staking. Nothing is split while either the
/// reward or the bond is zero.
pub open spec fn split_reward(reward: int, bond_amount: int, total_stake_bond_amount: int, fee: Decimal) -> Result<CompoundSplit, ContractError> {
    if reward == 0 || bond_amount == 0 {
        Ok(CompoundSplit { commission: 0, compound_amount: 0, stake_amount: 0 })
    } else {
        let commission = spec_mul_dec(reward, fee);
        if commission > reward || total_stake_bond_amount > bond_amount {
            Err(ContractError::Overflow)
        } else {
            let net = reward - commission;
            let compound = ratio(net, bond_amount - total_stake_bond_amount, bond_amount);
            Ok(CompoundSplit {
                commission: commission as u128,
                compound_amount: compound as u128,
                stake_amount: (net - compound) as u128,
            })
        }
    }
}

/// Splits a harvested `reward` into commission, auto-compound and auto-stake parts,
/// as every farm does (the single-asset compounds and the Mirror farm's harvest).
pub fn compound_split(reward: u128, bond_amount: u128, total_stake_bond_amount: u128, fee: Decimal) -> (r: Result<CompoundSplit, ContractError>)
    requires
        spec_mul_dec(reward as int, fee) <= u128::MAX,
    ensures
        r == split_reward(reward as int, bond_amount as int, total_stake_bond_amount as int, fee),
{
    if reward == 0 || bond_amount == 0 {
        return Ok(CompoundSplit { commission: 0, compound_amount: 0, stake_amount: 0 });
    }
    let commission = mul_dec(reward, fee);
    if commission > reward {
        return Err(ContractError::Overflow);
    }
    let net = reward - commission;
    if total_stake_bond_amount > bond_amount {
        return Err(ContractError::Overflow);
    }
    let auto_bond_amount = bond_amount - total_stake_bond_amount;
    proof {
        crate::math::lemma_ratio_le_value(net as int, auto_bond_amount as int, bond_amount as int);
    }
    let compound_amount = multiply_ratio(net, auto_bond_amount, bond_amount);
    Ok(CompoundSplit { commission, compound_amount, stake_amount: net - compound_amount })
}

/// A split reward is shared out whole: commission, auto-compound and auto-stake
/// parts add up to the reward, and each part is at most the reward.
pub proof fn lemma_split_reward_whole(reward: u128, bond_amount: u128, total_stake_bond_amount: u128, fee: Decimal)
    requires
        split_reward(reward as int, bond_amount as int, total_stake_bond_amount as int, fee) is Ok,
    ensures
        ({
            let s = split_reward(reward as int, bond_amount as int, total_stake_bond_amount as int, fee)->Ok_0;
            &&& s.commission + s.compound_amount + s.stake_amount == if bond_amount == 0 { 0 } else { reward as int }
            &&& s.commission <= reward && s.compound_amount <= reward && s.stake_amount <= reward
        }),
{
    if reward != 0 && bond_amount != 0 {
        let commission = spec_mul_dec(reward as int, fee);
        let net = reward - commission;
        crate::math::lemma_ratio_le_value(net, bond_amount - total_stake_bond_amount, bond_amount as int);
    }
}

/// Half of `amount`, rounded down: the part of a reinvest allowance that is swapped.
pub open spec fn half(amount: int) -> int {
    ratio(amount, 1, 2)
}

/// As the Mirror farm's MIR re-invest and the single-asset compounds do:
/// the part of a reinvest allowance held in the farm token that is swapped to the
/// base denomination before providing liquidity: half of it, rounded down.
pub fn reinvest_swap_amount(allowance: u128) -> (r: u128)
    ensures
        r == half(allowance as int),
        r <= allowance,
{
    proof {
        crate::math::lemma_ratio_le_value(allowance as int, 1, 2);
    }
    multiply_ratio(allowance, 1, 2)
}

/// What a compound does before its first swap.
#[derive(Clone, Copy, Debug, PartialEq, Eq, Structural)]
pub struct CompoundPlan {
    pub split: CompoundSplit,
    /// The pool's reinvest allowance with the new auto-compound part.
    pub reinvest_allowance: u128,
    /// The part of the reinvest allowance swapped to the base denomination.
    pub swap_amount: u128,
    /// Farm tokens swapped in all: the commission and `swap_amount`.
    pub total_swap_amount: u128,
}

pub open spec fn planned(allowance: int, reward: int, bond_amount: int, total_stake_bond_amount: int, fee: Decimal) -> Result<CompoundPlan, ContractError> {
    match split_reward(reward, bond_amount, total_stake_bond_amount, fee) {
        Err(e) => Err(e),
        Ok(s) => {
            let reinvest = allowance + s.compound_amount;
            Ok(CompoundPlan {
                split: s,
                reinvest_allowance: reinvest as u128,
                swap_amount: half(reinvest) as u128,
                total_swap_amount: (s.commission + half(reinvest)) as u128,
            })
        },
    }
}

pub open spec fn plan_fits(allowance: int, reward: int, bond_amount: int, total_stake_bond_amount: int, fee: Decimal) -> bool {
    &&& spec_mul_dec(reward, fee) <= u128::MAX
    &&& split_reward(reward, bond_amount, total_stake_bond_amount, fee) matches Ok(s) ==> {
        &&& allowance + s.compound_amount <= u128::MAX
        &&& s.commission + half(allowance + s.compound_amount) <= u128::MAX
    }
}

/// Which fee rates a farm's compound charges.
#[derive(Clone, Copy, Debug, PartialEq, Eq, Structural)]
pub enum FeeRule {
    /// The three configured rates (the Anchor, Nexus and Astroport farms).
    Configured,
    /// The platform's and the controller's rates only while their addresses are set
    /// (the Pylon farm, and the Mirror farm's harvest).
    OfSetAddresses,
}

/// When a compound sends the allowance, the liquidity provision and the LP bond.
#[derive(Clone, Copy, Debug, PartialEq, Eq, Structural)]
pub enum ProvideRule {
    /// Only when some farm tokens are provided (the Anchor, Nexus and Astroport farms).
    IfAny,
    /// Always, even for nothing (the Pylon farm).
    Always,
}

/// Where the single-asset farms' compounds differ.
#[derive(Clone, Copy, Debug, PartialEq, Eq, Structural)]
pub struct CompoundRules {
    pub fees: FeeRule,
    pub provide: ProvideRule,
    /// Whether the farm's SPEC earning counts the SPEC its commission bought (the
    /// Pylon and Nexus farms; the Anchor farm counts only the net commission).
    pub records_spec: bool,
}

/// The community, platform and controller rates a compound charges under `rule`.
pub open spec fn fees_of(c: Config, rule: FeeRule) -> (Decimal, Decimal, Decimal) {
    match rule {
        FeeRule::Configured => (c.community_fee, c.platform_fee, c.controller_fee),
        FeeRule::OfSetAddresses => (
            c.community_fee,
            if c.platform@.len() == 0 { Decimal { atomics: 0 } } else { c.platform_fee },
            if c.controller@.len() == 0 { Decimal { atomics: 0 } } else { c.controller_fee },
        ),
    }
}

/// The commission rate a compound charges: its three fee rates together.
pub open spec fn config_total_fee(c: Config, rule: FeeRule) -> Decimal {
    let f = fees_of(c, rule);
    Decimal { atomics: fee_sum(f.0, f.1, f.2) as u128 }
}

/// Whether `sender` may compound: anyone while no controller is set, else only it.
pub open spec fn may_compound(c: Config, sender: Seq<u8>) -> bool {
    c.controller@.len() == 0 || c.controller@ == sender
}

/// The fee rates a compound charges under `rule`.
pub fn compound_fees(config: &Config, rule: FeeRule) -> (r: (Decimal, Decimal, Decimal))
    ensures
        r == fees_of(*config, rule),
{
    match rule {
        FeeRule::Configured => (config.community_fee, config.platform_fee, config.controller_fee),
        FeeRule::OfSetAddresses => config.effective_fees(),
    }
}

/// Plans a compound, asked by `sender`, of `reward` farm tokens into a pool whose
/// reinvest allowance is `allowance`: the reward is split at the total fee rate
/// that the farm's rules charge, the auto-compound part joins the allowance, and
/// half of that is swapped together with the commission. Only the controller may
/// compound, when one is set.
pub fn compound(config: &Config, rules: CompoundRules, sender: &Vec<u8>, allowance: u128, reward: u128, bond_amount: u128, total_stake_bond_amount: u128) -> (r: Result<CompoundPlan, ContractError>)
    requires
        may_compound(*config, sender@) ==> {
            &&& fee_sum(fees_of(*config, rules.fees).0, fees_of(*config, rules.fees).1, fees_of(*config, rules.fees).2) <= u128::MAX
            &&& plan_fits(allowance as int, reward as int, bond_amount as int, total_stake_bond_amount as int, config_total_fee(*config, rules.fees))
        },
    ensures
        !may_compound(*config, sender@) ==> r == Err::<CompoundPlan, ContractError>(ContractError::Unauthorized),
        may_compound(*config, sender@) ==> r == planned(allowance as int, reward as int, bond_amount as int, total_stake_bond_amount as int, config_total_fee(*config, rules.fees)),
{
    config.authorize_controller(sender)?;
    let (community_fee, platform_fee, controller_fee) = compound_fees(config, rules.fees);
    let fee = total_fee(community_fee, platform_fee, controller_fee);
    let split = compound_split(reward, bond_amount, total_stake_bond_amount, fee)?;
    let reinvest_allowance = allowance + split.compound_amount;
    let swap_amount = reinvest_swap_amount(reinvest_allowance);
    Ok(CompoundPlan {
        split,
        reinvest_allowance,
        swap_amount,
        total_swap_amount: split.commission + swap_amount,
    })
}

/// Which messages a compound sends besides claiming the farm's rewards, in the
/// order it sends them.
#[derive(Clone, Copy, Debug, PartialEq, Eq, Structural)]
pub struct CompoundMessages {
    /// Swap of the farm tokens set for swapping (commission and half the allowance).
    pub swap_farm_token: bool,
    /// Swap of the commission's return into SPEC, followed by a mint on gov.
    pub buy_spec: bool,
    /// Transfer of the community's part of the SPEC to gov.
    pub transfer_community_fee: bool,
    /// Stake of the platform's part of the SPEC on gov.
    pub stake_platform_fee: bool,
    /// Stake of the controller's part of the SPEC on gov.
    pub stake_controller_fee: bool,
    /// Stake of the auto-stakers' farm tokens in the farmed protocol.
    pub stake_farm_token: bool,
    /// Allowance for the pair, liquidity provided to it, and a bond of the LP tokens.
    pub provide_liquidity: bool,
}

/// The messages of a compound that swaps `total_swap_amount` farm tokens, whose
/// commission returned `commission_return` (after tax), stakes `stake_amount` farm
/// tokens and provides `provide_amount` farm tokens as liquidity: each swap and
/// stake only when its amount is not zero, each fee only when the rate the rules
/// charge for it is not zero, and the provision as the rules say.
pub open spec fn compound_messages_of(c: Config, rules: CompoundRules, total_swap_amount: int, commission_return: int, stake_amount: int, provide_amount: int) -> CompoundMessages {
    let f = fees_of(c, rules.fees);
    CompoundMessages {
        swap_farm_token: total_swap_amount != 0,
        buy_spec: commission_return != 0,
        transfer_community_fee: commission_return != 0 && f.0.atomics != 0,
        stake_platform_fee: commission_return != 0 && f.1.atomics != 0,
        stake_controller_fee: commission_return != 0 && f.2.atomics != 0,
        stake_farm_token: stake_amount != 0,
        provide_liquidity: rules.provide == ProvideRule::Always || provide_amount != 0,
    }
}

/// Decides which messages a compound sends, from the amounts it settled and the
/// farm's rules.
pub fn compound_messages(config: &Config, rules: CompoundRules, total_swap_amount: u128, commission_return: u128, stake_amount: u128, provide_amount: u128) -> (r: CompoundMessages)
    ensures
        r == compound_messages_of(*config, rules, total_swap_amount as int, commission_return as int, stake_amount as int, provide_amount as int),
{
    let (community_fee, platform_fee, controller_fee) = compound_fees(config, rules.fees);
    let buy_spec = commission_return != 0;
    let provide_liquidity = match rules.provide {
        ProvideRule::IfAny => provide_amount != 0,
        ProvideRule::Always => true,
    };
    CompoundMessages {
        swap_farm_token: total_swap_amount != 0,
        buy_spec,
        transfer_community_fee: buy_spec && !community_fee.is_zero(),
        stake_platform_fee: buy_spec && !platform_fee.is_zero(),
        stake_controller_fee: buy_spec && !controller_fee.is_zero(),
        stake_farm_token: stake_amount != 0,
        provide_liquidity,
    }
}

/// The commission's part of what a swap of `total_swap` farm tokens returned, by
/// the commission's part of the tokens swapped.
pub open spec fn commission_return(total_return: int, total_commission: int, total_swap: int) -> int {
    if total_swap == 0 { 0 } else { ratio(total_return, total_commission, total_swap) }
}

/// As the single-asset compounds do (Anchor, Pylon, Nexus, Astroport):
/// splits what the swap of `total_swap` farm tokens, `total_commission` of them
/// commission, returned into the commission's part and the part to reinvest.
pub fn split_swap_return(total_return: u128, total_commission: u128, total_swap: u128) -> (r: Result<(u128, u128), ContractError>)
    requires
        commission_return(total_return as int, total_commission as int, total_swap as int) <= u128::MAX,
    ensures
        ({
            let c = commission_return(total_return as int, total_commission as int, total_swap as int);
            if c > total_return {
                r == Err::<(u128, u128), ContractError>(ContractError::Overflow)
            } else {
                r == Ok::<(u128, u128), ContractError>((c as u128, (total_return - c) as u128))
            }
        }),
{
    let commission = if total_swap != 0 {
        multiply_ratio(total_return, total_commission, total_swap)
    } else {
        0
    };
    if commission > total_return {
        return Err(ContractError::Overflow);
    }
    Ok((commission, total_return - commission))
}

/// The commission's part never exceeds what the swap returned while the commission
/// is part of the tokens swapped.
pub proof fn lemma_commission_return_bounded(total_return: u128, total_commission: u128, total_swap: u128)
    requires
        total_commission <= total_swap,
    ensures
        0 <= commission_return(total_return as int, total_commission as int, total_swap as int) <= total_return,
{
    if total_swap != 0 {
        crate::math::lemma_ratio_le_value(total_return as int, total_commission as int, total_swap as int);
    }
}

/// As every farm does after a provide (the compounds and Mirror's MIR re-invest):
/// the reinvest allowance left after providing liquidity: the tokens set aside
/// for swapping less those the provide needs (`provide_return` bought back and
/// `provide_commission` paid on it).
pub fn remaining_allowance(swap_amount: u128, provide_return: u128, provide_commission: u128) -> (r: Result<u128, ContractError>)
    requires
        provide_return + provide_commission <= u128::MAX,
    ensures
        swap_amount >= provide_return + provide_commission ==> r == Ok::<u128, ContractError>((swap_amount - provide_return - provide_commission) as u128),
        swap_amount < provide_return + provide_commission ==> r == Err::<u128, ContractError>(ContractError::Overflow),
{
    let provide = provide_return + provide_commission;
    if swap_amount < provide {
        return Err(ContractError::Overflow);
    }
    Ok(swap_amount - provide)
}

/// A fee rate in thousandths, rounded down: `1000 * fee` as an amount.
pub open spec fn per_mille(fee: Decimal) -> int {
    spec_mul_dec(1000, fee)
}

/// The part of `amount` that a fee rate takes among all fees, with both rates
/// rounded down to thousandths.
pub open spec fn fee_part(amount: int, fee: Decimal, total: Decimal) -> int {
    ratio(amount, per_mille(fee), per_mille(total))
}

/// How commission bought back as SPEC (or aUST) is shared out.
#[derive(Clone, Copy, Debug, PartialEq, Eq, Structural)]
pub struct FeeSplit {
    /// Sent to the gov contract for the community.
    pub community_amount: u128,
    /// Staked for the platform.
    pub platform_amount: u128,
    /// What is left, staked for the controller.
    pub controller_amount: u128,
}

pub open spec fn fee_split_of(amount: int, community_fee: Decimal, platform_fee: Decimal, controller_fee: Decimal) -> FeeSplit {
    let total = Decimal { atomics: fee_sum(community_fee, platform_fee, controller_fee) as u128 };
    let community = fee_part(amount, community_fee, total);
    let platform = fee_part(amount, platform_fee, total);
    FeeSplit {
        community_amount: community as u128,
        platform_amount: platform as u128,
        controller_amount: (amount - community - platform) as u128,
    }
}

/// As every farm shares out its commission (the compounds' SPEC, the Astroport UST
/// farm's aUST): shares `amount` out between the community, the platform and the controller by
/// their fee rates, each rate rounded down to thousandths; the controller takes the
/// remainder. A compound whose controller fee is zero leaves that remainder with
/// the farm.
pub fn fee_split(amount: u128, community_fee: Decimal, platform_fee: Decimal, controller_fee: Decimal) -> (r: FeeSplit)
    requires
        fee_sum(community_fee, platform_fee, controller_fee) <= u128::MAX,
        per_mille(Decimal { atomics: fee_sum(community_fee, platform_fee, controller_fee) as u128 }) > 0,
    ensures
        r == fee_split_of(amount as int, community_fee, platform_fee, controller_fee),
        r.community_amount + r.platform_amount + r.controller_amount == amount,
{
    let total = total_fee(community_fee, platform_fee, controller_fee);
    proof {
        lemma_fee_parts_bounded(amount as int, community_fee, platform_fee, controller_fee);
    }
    let thousand: u128 = 1000;
    let community_weight = mul_dec(thousand, community_fee);
    let platform_weight = mul_dec(thousand, platform_fee);
    let total_weight = mul_dec(thousand, total);
    let community_amount = multiply_ratio(amount, community_weight, total_weight);
    let platform_amount = multiply_ratio(amount, platform_weight, total_weight);
    FeeSplit {
        community_amount,
        platform_amount,
        controller_amount: amount - (community_amount + platform_amount),
    }
}

/// The fee transfers of a farm's fee payout: the split of the farm's balance and,
/// for each part, whether it is sent (only a part that is not zero is).
#[derive(Clone, Copy, Debug, PartialEq, Eq, Structural)]
pub struct FeeTransfers {
    pub split: FeeSplit,
    pub transfer_community: bool,
    pub transfer_platform: bool,
    pub transfer_controller: bool,
}

/// The Astroport UST farm's fee payout (`send_fee`): pays out the fees the farm
/// collected (`amount`, its balance of the fee token):
/// only the farm itself (`contract_addr`) may ask for it. Each part of the split is
/// transferred when it is not zero.
pub fn send_fee(sender: &Vec<u8>, contract_addr: &Vec<u8>, amount: u128, community_fee: Decimal, platform_fee: Decimal, controller_fee: Decimal) -> (r: Result<FeeTransfers, ContractError>)
    requires
        sender@ == contract_addr@ ==> fee_sum(community_fee, platform_fee, controller_fee) <= u128::MAX,
        sender@ == contract_addr@ ==> per_mille(Decimal { atomics: fee_sum(community_fee, platform_fee, controller_fee) as u128 }) > 0,
    ensures
        sender@ != contract_addr@ ==> r == Err::<FeeTransfers, ContractError>(ContractError::Unauthorized),
        sender@ == contract_addr@ ==> ({
            let f = fee_split_of(amount as int, community_fee, platform_fee, controller_fee);
            r == Ok::<FeeTransfers, ContractError>(FeeTransfers {
                split: f,
                transfer_community: f.community_amount != 0,
                transfer_platform: f.platform_amount != 0,
                transfer_controller: f.controller_amount != 0,
            })
        }),
{
    if !addr_eq(sender, contract_addr) {
        return Err(ContractError::Unauthorized);
    }
    let split = fee_split(amount, community_fee, platform_fee, controller_fee);
    Ok(FeeTransfers {
        split,
        transfer_community: split.community_amount != 0,
        transfer_platform: split.platform_amount != 0,
        transfer_controller: split.controller_amount != 0,
    })
}

/// Records what a compound's commission earned and shares out the SPEC it bought:
/// the farm's earning grows by the net commission (and its SPEC earning by the
/// SPEC bought, where the rules count it), and the SPEC goes to the community, the
/// platform and the controller by the rates the rules charge, the parts adding up
/// to the SPEC bought.
pub fn settle_commission(state: &mut State, config: &Config, rules: CompoundRules, net_commission: u128, spec_commission: u128) -> (r: FeeSplit)
    requires
        old(state).earning + net_commission <= u128::MAX,
        rules.records_spec ==> old(state).earning_spec + spec_commission <= u128::MAX,
        fee_sum(fees_of(*config, rules.fees).0, fees_of(*config, rules.fees).1, fees_of(*config, rules.fees).2) <= u128::MAX,
        per_mille(config_total_fee(*config, rules.fees)) > 0,
    ensures
        *final(state) == (State {
            earning: (old(state).earning + net_commission) as u128,
            earning_spec: if rules.records_spec { (old(state).earning_spec + spec_commission) as u128 } else { old(state).earning_spec },
            ..*old(state)
        }),
        r == fee_split_of(spec_commission as int, fees_of(*config, rules.fees).0, fees_of(*config, rules.fees).1, fees_of(*config, rules.fees).2),
        r.community_amount + r.platform_amount + r.controller_amount == spec_commission,
{
    let spec_earned: u128 = if rules.records_spec { spec_commission } else { 0 };
    state.add_earning(net_commission, spec_earned);
    let (community_fee, platform_fee, controller_fee) = compound_fees(config, rules.fees);
    fee_split(spec_commission, community_fee, platform_fee, controller_fee)
}

/// Two rounded-down parts of `a` whose weights `s` and `t` together do not exceed
/// the whole `n` add up to at most `a`.
proof fn lemma_two_parts_le(a: int, s: int, t: int, n: int)
    requires
        a >= 0,
        s >= 0,
        t >= 0,
        n > 0,
        s + t <= n,
    ensures
        ratio(a, s, n) >= 0,
        ratio(a, t, n) >= 0,
        ratio(a, s, n) + ratio(a, t, n) <= a,
{
    assert(a * s >= 0 && a * t >= 0) by (nonlinear_arith)
        requires a >= 0, s >= 0, t >= 0;
    assert(a * s + a * t <= a * n) by (nonlinear_arith)
        requires a >= 0, s >= 0, t >= 0, s + t <= n;
    crate::math::lemma_floor_sum_le(a * s, a * t, a * n - a * s - a * t, n);
    vstd::arithmetic::div_mod::lemma_div_by_multiple(a, n);
    assert(a * n == n * a) by (nonlinear_arith);
    vstd::arithmetic::div_mod::lemma_div_pos_is_pos(a * s, n);
    vstd::arithmetic::div_mod::lemma_div_pos_is_pos(a * t, n);
}

/// The community's and the platform's parts of a commission never exceed it
/// together, so the controller's remainder is never negative and the three parts
/// add up to the commission.
pub proof fn lemma_fee_parts_bounded(amount: int, community_fee: Decimal, platform_fee: Decimal, controller_fee: Decimal)
    requires
        amount >= 0,
        fee_sum(community_fee, platform_fee, controller_fee) <= u128::MAX,
        per_mille(Decimal { atomics: fee_sum(community_fee, platform_fee, controller_fee) as u128 }) > 0,
    ensures
        ({
            let total = Decimal { atomics: fee_sum(community_fee, platform_fee, controller_fee) as u128 };
            &&& per_mille(community_fee) + per_mille(platform_fee) <= per_mille(total)
            &&& 0 <= fee_part(amount, community_fee, total)
            &&& 0 <= fee_part(amount, platform_fee, total)
            &&& fee_part(amount, community_fee, total) + fee_part(amount, platform_fee, total) <= amount
        }),
{
    let total = Decimal { atomics: fee_sum(community_fee, platform_fee, controller_fee) as u128 };
    let d = crate::math::DECIMAL_FRACTIONAL as int;
    crate::math::lemma_floor_sum_le(1000 * community_fee.atomics, 1000 * platform_fee.atomics, 1000 * controller_fee.atomics, d);
    assert(1000 * community_fee.atomics + 1000 * platform_fee.atomics + 1000 * controller_fee.atomics == 1000 * total.atomics);
    vstd::arithmetic::div_mod::lemma_div_pos_is_pos(1000 * community_fee.atomics, d);
    vstd::arithmetic::div_mod::lemma_div_pos_is_pos(1000 * platform_fee.atomics, d);
    lemma_two_parts_le(amount, per_mille(community_fee), per_mille(platform_fee), per_mille(total));
}

/// What re-investing a pool's allowance in its own asset does with it.
#[derive(Clone, Copy, Debug, PartialEq, Eq, Structural)]
pub struct AssetReinvest {
    /// Swapped for the pool's asset.
    pub net_swap: u128,
    /// Provided as liquidity beside the asset bought.
    pub net_liquidity: u128,
    /// Kept back for the swap commission of the pair, and left as the new allowance.
    pub remaining_allowance: u128,
}

/// The commission rate of a swap pair: 0.3%.
pub open spec fn pair_commission_rate() -> Decimal {
    Decimal { atomics: 3_000_000_000_000_000 }
}

pub open spec fn asset_reinvest_of(allowance: int) -> AssetReinvest {
    let net_swap = half(allowance);
    let for_liquidity = allowance - net_swap;
    let commission = spec_mul_dec(for_liquidity, pair_commission_rate());
    AssetReinvest {
        net_swap: net_swap as u128,
        net_liquidity: (for_liquidity - commission) as u128,
        remaining_allowance: commission as u128,
    }
}

/// The Mirror farm's re-invest of a pool's own asset: splits a reinvest allowance
/// held in the base denomination: half of it (rounded
/// down) buys the asset, the rest is provided beside it less the pair's commission,
/// which stays as the new allowance.
pub fn re_invest_asset(allowance: u128) -> (r: AssetReinvest)
    ensures
        r == asset_reinvest_of(allowance as int),
        r.net_swap + r.net_liquidity + r.remaining_allowance == allowance,
{
    proof {
        crate::math::lemma_ratio_le_value(allowance as int, 1, 2);
    }
    let net_swap = multiply_ratio(allowance, 1, 2);
    let for_liquidity = allowance - net_swap;
    let rate = Decimal::permille(3);
    proof {
        crate::math::lemma_ratio_le_value(for_liquidity as int, rate.atomics as int, crate::math::DECIMAL_FRACTIONAL as int);
    }
    let commission = mul_dec(for_liquidity, rate);
    AssetReinvest {
        net_swap,
        net_liquidity: for_liquidity - commission,
        remaining_allowance: commission,
    }
}

} // verus!
