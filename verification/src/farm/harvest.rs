//! The Mirror farm's harvest of every pool of a multi-asset farm at once: each
//! pool's pending reward is split, commission and the re-invested parts of
//! non-farm-token pools are swapped together, and what the swap returned is shared
//! back among the pools' reinvest allowances. The fee rate charged is the one of
//! [`crate::farm::compound::FeeRule::OfSetAddresses`], which the caller passes.

use vstd::prelude::*;
use crate::error::ContractError;
use crate::farm::compound::{split_reward, CompoundSplit, commission_return};
use crate::math::{multiply_ratio, ratio, spec_mul_dec, Decimal};

verus! {

/// A pool's pending reward, as the farmed protocol reports it.
#[derive(Clone, Copy, Debug, PartialEq, Eq, Structural)]
pub struct HarvestItem {
    pub pending_reward: u128,
    /// LP tokens the farm has bonded in the pool.
    pub bond_amount: u128,
    /// Of those, LP tokens bonded for auto-staking.
    pub total_stake_bond_amount: u128,
    /// Whether the pool's asset is the farm token itself, whose re-invested part
    /// needs no swap.
    pub is_farm_token: bool,
}

/// Farm tokens taken from all pools by a harvest.
#[derive(Clone, Copy, Debug, PartialEq, Eq, Structural)]
pub struct HarvestTotals {
    pub commission: u128,
    /// Swapped to the base denomination: the commission and the re-invested parts
    /// of the pools of other assets.
    pub swap_amount: u128,
    /// Staked in the farmed protocol's governance for auto-stakers.
    pub stake_amount: u128,
}

pub open spec fn item_split(it: HarvestItem, fee: Decimal) -> Result<CompoundSplit, ContractError> {
    split_reward(it.pending_reward as int, it.bond_amount as int, it.total_stake_bond_amount as int, fee)
}

/// The swapped part of an item's split.
pub open spec fn swapped_part(it: HarvestItem, s: CompoundSplit) -> int {
    if it.is_farm_token { s.commission as int } else { s.commission + s.compound_amount }
}

/// Totals of splitting `items` in order; the first item that cannot be split
/// decides the error.
pub open spec fn harvest_totals(items: Seq<HarvestItem>, fee: Decimal) -> Result<(int, int, int), ContractError>
    decreases items.len(),
{
    if items.len() == 0 {
        Ok((0, 0, 0))
    } else {
        match harvest_totals(items.drop_last(), fee) {
            Err(e) => Err(e),
            Ok(t) => match item_split(items.last(), fee) {
                Err(e) => Err(e),
                Ok(s) => Ok((t.0 + s.commission, t.1 + swapped_part(items.last(), s), t.2 + s.stake_amount)),
            },
        }
    }
}

/// No running total of a harvest exceeds 128 bits.
pub open spec fn harvest_fits(items: Seq<HarvestItem>, fee: Decimal) -> bool {
    &&& forall|i: int| 0 <= i < items.len() ==> spec_mul_dec(#[trigger] items[i].pending_reward as int, fee) <= u128::MAX
    &&& forall|k: int| 0 <= k <= items.len() ==>
        (#[trigger] harvest_totals(items.take(k), fee) matches Ok(t) ==> t.0 <= u128::MAX && t.1 <= u128::MAX && t.2 <= u128::MAX)
}

/// An error among the first `k` items is the error of the whole harvest.
proof fn lemma_error_propagates(items: Seq<HarvestItem>, fee: Decimal, k: int, n: int)
    requires
        0 <= k <= n <= items.len(),
        harvest_totals(items.take(k), fee) is Err,
    ensures
        harvest_totals(items.take(n), fee) == harvest_totals(items.take(k), fee),
    decreases n - k,
{
    if n > k {
        lemma_error_propagates(items, fee, k, n - 1);
        assert(items.take(n).drop_last() =~= items.take(n - 1));
    }
}

/// Splits the pending reward of every pool, in order, and sums the parts.
pub fn harvest_all(items: &Vec<HarvestItem>, fee: Decimal) -> (r: Result<(Vec<CompoundSplit>, HarvestTotals), ContractError>)
    requires
        harvest_fits(items@, fee),
    ensures
        match harvest_totals(items@, fee) {
            Err(e) => r == Err::<(Vec<CompoundSplit>, HarvestTotals), ContractError>(e),
            Ok(t) => r matches Ok((splits, totals)) && {
                &&& totals.commission == t.0
                &&& totals.swap_amount == t.1
                &&& totals.stake_amount == t.2
                &&& splits.len() == items.len()
                &&& forall|i: int| 0 <= i < items.len() ==> item_split(#[trigger] items@[i], fee) == Ok::<CompoundSplit, ContractError>(splits@[i])
            },
        },
{
    let mut splits: Vec<CompoundSplit> = Vec::new();
    let mut commission: u128 = 0;
    let mut swap_amount: u128 = 0;
    let mut stake_amount: u128 = 0;
    let mut i: usize = 0;
    proof {
        assert(items@.take(0) =~= Seq::<HarvestItem>::empty());
    }
    while i < items.len()
        invariant
            i <= items.len(),
            harvest_fits(items@, fee),
            harvest_totals(items@.take(i as int), fee) == Ok::<(int, int, int), ContractError>((commission as int, swap_amount as int, stake_amount as int)),
            splits.len() == i,
            forall|j: int| 0 <= j < i ==> item_split(#[trigger] items@[j], fee) == Ok::<CompoundSplit, ContractError>(splits@[j]),
        decreases items.len() - i,
    {
        let it = items[i];
        proof {
            assert(items@.take(i + 1).drop_last() =~= items@.take(i as int));
            assert(items@.take(i + 1).last() == items@[i as int]);
            assert(spec_mul_dec(items@[i as int].pending_reward as int, fee) <= u128::MAX);
        }
        let s = match crate::farm::compound::compound_split(it.pending_reward, it.bond_amount, it.total_stake_bond_amount, fee) {
            Ok(s) => s,
            Err(e) => {
                proof {
                    lemma_error_propagates(items@, fee, i + 1, items.len() as int);
                    assert(items@.take(items.len() as int) =~= items@);
                }
                return Err(e);
            },
        };
        proof {
            assert(harvest_totals(items@.take(i + 1), fee) matches Ok(_));
        }
        commission = commission + s.commission;
        swap_amount = if it.is_farm_token { swap_amount + s.commission } else { swap_amount + s.commission + s.compound_amount };
        stake_amount = stake_amount + s.stake_amount;
        splits.push(s);
        i = i + 1;
    }
    proof {
        assert(items@.take(items.len() as int) =~= items@);
    }
    Ok((splits, HarvestTotals { commission, swap_amount, stake_amount }))
}

/// What a pool's reinvest allowance gains from a harvest: a farm-token pool keeps
/// its re-invested tokens as they are; any other pool gets its part of what the
/// swap returned, by its part of the tokens swapped.
pub open spec fn allowance_gain(it: HarvestItem, s: CompoundSplit, total_return: int, total_swap: int) -> int {
    if it.is_farm_token { s.compound_amount as int } else { ratio(total_return, s.compound_amount as int, total_swap) }
}

/// The pools' reinvest allowances after a harvest whose swap of `total_swap` farm
/// tokens returned `total_return`. Every pool must have had a reward and a bond to
/// be harvested.
pub fn harvest_allowances(items: &Vec<HarvestItem>, splits: &Vec<CompoundSplit>, allowances: &Vec<u128>, total_return: u128, total_swap: u128) -> (r: Vec<u128>)
    requires
        splits.len() == items.len(),
        allowances.len() == items.len(),
        total_swap > 0,
        forall|i: int| 0 <= i < items.len() ==> (#[trigger] items@[i]).pending_reward != 0 && items@[i].bond_amount != 0,
        forall|i: int| 0 <= i < items.len() && !(#[trigger] items@[i]).is_farm_token ==>
            ratio(total_return as int, splits@[i].compound_amount as int, total_swap as int) <= u128::MAX,
        forall|i: int| 0 <= i < items.len() ==>
            #[trigger] allowances@[i] + allowance_gain(items@[i], splits@[i], total_return as int, total_swap as int) <= u128::MAX,
    ensures
        r.len() == items.len(),
        forall|i: int| 0 <= i < items.len() ==>
            #[trigger] r@[i] == allowances@[i] + allowance_gain(items@[i], splits@[i], total_return as int, total_swap as int),
{
    let mut r: Vec<u128> = Vec::new();
    let mut i: usize = 0;
    while i < items.len()
        invariant
            i <= items.len(),
            splits.len() == items.len(),
            allowances.len() == items.len(),
            total_swap > 0,
            forall|k: int| 0 <= k < items.len() && !(#[trigger] items@[k]).is_farm_token ==>
                ratio(total_return as int, splits@[k].compound_amount as int, total_swap as int) <= u128::MAX,
            forall|k: int| 0 <= k < items.len() ==>
                #[trigger] allowances@[k] + allowance_gain(items@[k], splits@[k], total_return as int, total_swap as int) <= u128::MAX,
            r.len() == i,
            forall|k: int| 0 <= k < i ==>
                #[trigger] r@[k] == allowances@[k] + allowance_gain(items@[k], splits@[k], total_return as int, total_swap as int),
        decreases items.len() - i,
    {
        let s = splits[i];
        let gain = if items[i].is_farm_token {
            s.compound_amount
        } else {
            multiply_ratio(total_return, s.compound_amount, total_swap)
        };
        proof {
            assert(allowances@[i as int] + allowance_gain(items@[i as int], splits@[i as int], total_return as int, total_swap as int) <= u128::MAX);
        }
        r.push(allowances[i] + gain);
        i = i + 1;
    }
    r
}

/// The commission's part of what the harvest swap returned; the harvest cannot go
/// on when nothing was swapped.
pub fn harvest_commission_return(total_return: u128, totals: &HarvestTotals) -> (r: u128)
    requires
        totals.swap_amount > 0,
        commission_return(total_return as int, totals.commission as int, totals.swap_amount as int) <= u128::MAX,
    ensures
        r == commission_return(total_return as int, totals.commission as int, totals.swap_amount as int),
{
    multiply_ratio(total_return, totals.commission, totals.swap_amount)
}

/// Every harvest total is the sum of its items' parts, and the commission is part
/// of what is swapped.
pub proof fn lemma_harvest_commission_swapped(items: Seq<HarvestItem>, fee: Decimal)
    requires
        harvest_totals(items, fee) is Ok,
    ensures
        ({
            let t = harvest_totals(items, fee)->Ok_0;
            0 <= t.0 <= t.1 && t.2 >= 0
        }),
    decreases items.len(),
{
    if items.len() > 0 {
        lemma_harvest_commission_swapped(items.drop_last(), fee);
    }
}


/// Farm tokens re-invested by the pools of other assets, which the harvest swaps.
pub open spec fn swapped_reinvest(items: Seq<HarvestItem>, splits: Seq<CompoundSplit>) -> int
    decreases items.len(),
{
    if items.len() == 0 || splits.len() != items.len() {
        0
    } else {
        swapped_reinvest(items.drop_last(), splits.drop_last())
            + if items.last().is_farm_token { 0 } else { splits.last().compound_amount as int }
    }
}

/// Commission of all splits.
pub open spec fn commission_sum(splits: Seq<CompoundSplit>) -> int
    decreases splits.len(),
{
    if splits.len() == 0 { 0 } else { commission_sum(splits.drop_last()) + splits.last().commission }
}

/// What the pools of other assets gain from the swap return.
pub open spec fn shared_return(items: Seq<HarvestItem>, splits: Seq<CompoundSplit>, total_return: int, total_swap: int) -> int
    decreases items.len(),
{
    if items.len() == 0 || splits.len() != items.len() {
        0
    } else {
        shared_return(items.drop_last(), splits.drop_last(), total_return, total_swap)
            + if items.last().is_farm_token { 0 } else { ratio(total_return, splits.last().compound_amount as int, total_swap) }
    }
}

proof fn lemma_shared_return_below(items: Seq<HarvestItem>, splits: Seq<CompoundSplit>, total_return: int, total_swap: int)
    requires
        total_return >= 0,
        total_swap > 0,
        splits.len() == items.len(),
    ensures
        swapped_reinvest(items, splits) >= 0,
        0 <= shared_return(items, splits, total_return, total_swap) <= ratio(total_return, swapped_reinvest(items, splits), total_swap),
    decreases items.len(),
{
    if items.len() > 0 {
        let i0 = items.drop_last();
        let s0 = splits.drop_last();
        lemma_shared_return_below(i0, s0, total_return, total_swap);
        let x = swapped_reinvest(i0, s0);
        let c = if items.last().is_farm_token { 0 } else { splits.last().compound_amount as int };
        assert(total_return * x >= 0 && total_return * c >= 0) by (nonlinear_arith)
            requires total_return >= 0, x >= 0, c >= 0;
        crate::math::lemma_floor_sum_le(total_return * x, total_return * c, 0, total_swap);
        assert(total_return * x + total_return * c == total_return * (x + c)) by (nonlinear_arith);
        vstd::arithmetic::div_mod::lemma_div_pos_is_pos(total_return * c, total_swap);
        if items.last().is_farm_token {
            crate::math::lemma_ratio_zero(total_return, 0, total_swap);
        }
    }
}

proof fn lemma_commission_sum_nonneg(splits: Seq<CompoundSplit>)
    ensures
        commission_sum(splits) >= 0,
    decreases splits.len(),
{
    if splits.len() > 0 {
        lemma_commission_sum_nonneg(splits.drop_last());
    }
}

/// A harvest never hands out more of the swap return than it got: the parts the
/// pools of other assets gain and the commission's part together stay within it,
/// when the tokens swapped are the commission and those pools' re-invested parts.
pub proof fn lemma_harvest_return_not_over_shared(items: Seq<HarvestItem>, splits: Seq<CompoundSplit>, total_return: u128, total_swap: u128)
    requires
        splits.len() == items.len(),
        total_swap > 0,
        total_swap == commission_sum(splits) + swapped_reinvest(items, splits),
    ensures
        shared_return(items, splits, total_return as int, total_swap as int)
            + commission_return(total_return as int, commission_sum(splits), total_swap as int) <= total_return,
{
    lemma_shared_return_below(items, splits, total_return as int, total_swap as int);
    lemma_commission_sum_nonneg(splits);
    let x = swapped_reinvest(items, splits);
    let c = commission_sum(splits);
    let r = total_return as int;
    assert(r * x >= 0 && r * c >= 0) by (nonlinear_arith)
        requires r >= 0, x >= 0, c >= 0;
    crate::math::lemma_floor_sum_le(r * x, r * c, 0, total_swap as int);
    assert(r * x + r * c == r * (total_swap as int)) by (nonlinear_arith)
        requires x + c == total_swap;
    vstd::arithmetic::div_mod::lemma_div_by_multiple(r, total_swap as int);
    assert(r * (total_swap as int) == (total_swap as int) * r) by (nonlinear_arith);
}


/// The totals of a harvest are the sums over its splits: the commission, and the
/// commission with the re-invested parts of the pools of other assets.
pub proof fn lemma_harvest_totals_are_sums(items: Seq<HarvestItem>, splits: Seq<CompoundSplit>, fee: Decimal)
    requires
        harvest_totals(items, fee) is Ok,
        splits.len() == items.len(),
        forall|i: int| 0 <= i < items.len() ==> item_split(#[trigger] items[i], fee) == Ok::<CompoundSplit, ContractError>(splits[i]),
    ensures
        harvest_totals(items, fee)->Ok_0.0 == commission_sum(splits),
        harvest_totals(items, fee)->Ok_0.1 == commission_sum(splits) + swapped_reinvest(items, splits),
    decreases items.len(),
{
    if items.len() > 0 {
        let i0 = items.drop_last();
        let s0 = splits.drop_last();
        assert forall|i: int| 0 <= i < i0.len() implies item_split(#[trigger] i0[i], fee) == Ok::<CompoundSplit, ContractError>(s0[i]) by {
            assert(i0[i] == items[i]);
            assert(s0[i] == splits[i]);
        }
        lemma_harvest_totals_are_sums(i0, s0, fee);
        assert(item_split(items[items.len() - 1], fee) == Ok::<CompoundSplit, ContractError>(splits[splits.len() - 1]));
    }
}

} // verus!
