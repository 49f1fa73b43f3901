//! Staking pools of the governance contract and the accounts that hold shares of them.
//!
//! SPEC staked without a lock period sits in the "day 0" pool whose totals live
//! directly in [`State`]; each lock period of `days` has a [`StatePool`] of its own.
//! Shares convert to balances pro rata to the pool's totals.

use vstd::prelude::*;
use crate::common::copy_vec;
use crate::error::ContractError;
use crate::math::{lemma_ratio_le_value, lemma_weighted_parts_le_max, multiply_ratio, ratio, Decimal};

verus! {

/// Configuration of the governance contract.
pub struct Config {
    pub owner: Vec<u8>,
    pub spec_token: Vec<u8>,
    pub quorum: Decimal,
    pub threshold: Decimal,
    pub voting_period: u64,
    pub effective_delay: u64,
    pub expiration_period: u64,
    pub proposal_deposit: u128,
    pub mint_per_block: u128,
    pub mint_start: u64,
    pub mint_end: u64,
    pub warchest_address: Vec<u8>,
    pub warchest_ratio: Decimal,
    pub aust_token: Vec<u8>,
    pub burnvault_address: Vec<u8>,
    pub burnvault_ratio: Decimal,
}

/// A vault that receives a weighted part of each mint.
#[derive(Clone, Copy, Debug, PartialEq, Eq, Structural)]
pub struct Vault {
    pub weight: u32,
    pub balance: u128,
}

/// Seconds in one day.
pub const SEC_IN_DAY: u64 = 86400u64;

/// Totals of the staking pool for one lock period.
#[derive(Clone, Copy, Debug, PartialEq, Eq, Structural)]
pub struct StatePool {
    pub days: u64,
    pub total_share: u128,
    pub total_balance: u128,
    pub active: bool,
    /// Weight of the pool's layer when aUST is shared out (day 0 weighs one).
    pub weight: u32,
    pub aust_index: Decimal,
}

/// Shares issued for `amount` tokens in a pool with the given totals: one share
/// per token while the pool is empty, else pro rata, rounded down.
pub open spec fn share_for(total_share: int, total_balance: int, amount: int) -> int {
    if total_share == 0 || total_balance == 0 {
        amount
    } else {
        ratio(amount, total_share, total_balance)
    }
}

/// Tokens that `share` shares are worth in a pool with the given totals, rounded down.
pub open spec fn balance_for(total_share: int, total_balance: int, share: int) -> int {
    if total_share == 0 {
        0
    } else {
        ratio(share, total_balance, total_share)
    }
}

impl StatePool {
    pub open spec fn share_of(self, amount: int) -> int {
        share_for(self.total_share as int, self.total_balance as int, amount)
    }

    pub open spec fn balance_of(self, share: int) -> int {
        balance_for(self.total_share as int, self.total_balance as int, share)
    }

    /// Shares issued for depositing `amount` tokens into this pool.
    pub fn calc_share(&self, amount: u128) -> (r: u128)
        requires
            self.share_of(amount as int) <= u128::MAX,
        ensures
            r as int == self.share_of(amount as int),
    {
        if self.total_share == 0 || self.total_balance == 0 {
            amount
        } else {
            multiply_ratio(amount, self.total_share, self.total_balance)
        }
    }

    /// Tokens that `share` shares of this pool are worth.
    pub fn calc_balance(&self, share: u128) -> (r: u128)
        requires
            self.balance_of(share as int) <= u128::MAX,
        ensures
            r as int == self.balance_of(share as int),
    {
        if self.total_share == 0 {
            0
        } else {
            multiply_ratio(share, self.total_balance, self.total_share)
        }
    }
}

/// The lock periods of a list of pools, in order.
pub open spec fn state_days(pools: Seq<StatePool>) -> Seq<u64> {
    pools.map_values(|p: StatePool| p.days)
}

/// Index of the first pool with the given lock period.
pub open spec fn state_pool_index(pools: Seq<StatePool>, days: u64) -> Option<int> {
    state_days(pools).index_of_first(days)
}

/// `i` is the first position of `d` in `s`.
pub proof fn lemma_first_index(s: Seq<u64>, d: u64, i: int)
    requires
        0 <= i < s.len(),
        s[i] == d,
        forall|j: int| 0 <= j < i ==> s[j] != d,
    ensures
        s.index_of_first(d) == Some(i),
{
    s.index_of_first_ensures(d);
    assert(s.contains(d));
    match s.index_of_first(d) {
        Some(k) => {
            if k < i {
                assert(s[k] == d);
            } else if k > i {
                assert(s[i] != d);
            }
        },
        None => {},
    }
}

/// `d` does not occur in `s`.
pub proof fn lemma_no_index(s: Seq<u64>, d: u64)
    requires
        forall|j: int| 0 <= j < s.len() ==> s[j] != d,
    ensures
        s.index_of_first(d) is None,
{
    s.index_of_first_ensures(d);
    if s.contains(d) {
        let k = choose|k: int| 0 <= k < s.len() && s[k] == d;
        assert(s[k] == d);
    }
}

/// Position of the first pool with lock period `days`.
pub fn find_state_pool(pools: &Vec<StatePool>, days: u64) -> (r: Option<usize>)
    ensures
        match r {
            Some(k) => state_pool_index(pools@, days) == Some(k as int) && k < pools.len() && pools@[k as int].days == days,
            None => state_pool_index(pools@, days) is None,
        },
{
    let mut i: usize = 0;
    while i < pools.len()
        invariant
            0 <= i <= pools.len(),
            forall|j: int| 0 <= j < i ==> pools@[j].days != days,
        decreases pools.len() - i,
    {
        if pools[i].days == days {
            proof {
                let s = state_days(pools@);
                assert forall|j: int| 0 <= j < i implies s[j] != days by {
                    assert(s[j] == pools@[j].days);
                }
                lemma_first_index(s, days, i as int);
            }
            return Some(i);
        }
        i += 1;
    }
    proof {
        let s = state_days(pools@);
        assert forall|j: int| 0 <= j < s.len() implies s[j] != days by {
            assert(s[j] == pools@[j].days);
        }
        lemma_no_index(s, days);
    }
    None
}

/// Pool totals after `share` shares worth `amount` tokens join.
pub open spec fn pool_added(p: StatePool, share: int, amount: int) -> StatePool {
    StatePool {
        total_share: (p.total_share + share) as u128,
        total_balance: (p.total_balance + amount) as u128,
        ..p
    }
}

/// Pool totals after `share` shares worth `amount` tokens leave.
pub open spec fn pool_deducted(p: StatePool, share: int, amount: int) -> StatePool {
    StatePool {
        total_share: (p.total_share - share) as u128,
        total_balance: (p.total_balance - amount) as u128,
        ..p
    }
}

/// Global state of the governance contract.
pub struct State {
    pub contract_addr: Vec<u8>,
    pub poll_count: u64,
    pub poll_deposit: u128,
    pub last_mint: u64,
    pub total_weight: u32,
    /// SPEC balance of the contract, less poll deposits, at the last reconciliation.
    pub prev_balance: u128,
    pub prev_aust_balance: u128,
    pub vault_balances: u128,
    pub pools: Vec<StatePool>,
    /// Totals of the day-0 pool.
    pub total_share: u128,
    pub total_balance: u128,
    pub aust_index: Decimal,
}

/// The value of a [`State`].
pub struct StateView {
    pub contract_addr: Seq<u8>,
    pub poll_count: u64,
    pub poll_deposit: u128,
    pub last_mint: u64,
    pub total_weight: u32,
    pub prev_balance: u128,
    pub prev_aust_balance: u128,
    pub vault_balances: u128,
    pub pools: Seq<StatePool>,
    pub total_share: u128,
    pub total_balance: u128,
    pub aust_index: Decimal,
}

impl View for State {
    type V = StateView;

    open spec fn view(&self) -> StateView {
        StateView {
            contract_addr: self.contract_addr@,
            poll_count: self.poll_count,
            poll_deposit: self.poll_deposit,
            last_mint: self.last_mint,
            total_weight: self.total_weight,
            prev_balance: self.prev_balance,
            prev_aust_balance: self.prev_aust_balance,
            vault_balances: self.vault_balances,
            pools: self.pools@,
            total_share: self.total_share,
            total_balance: self.total_balance,
            aust_index: self.aust_index,
        }
    }
}

impl StateView {
    /// The day-0 pool, viewed as a [`StatePool`].
    pub open spec fn pool0(self) -> StatePool {
        StatePool {
            days: 0,
            total_share: self.total_share,
            total_balance: self.total_balance,
            active: true,
            weight: 1,
            aust_index: self.aust_index,
        }
    }

    /// The pool for a lock period: day 0, or the first registered pool with that period.
    pub open spec fn day_pool(self, days: u64) -> Option<StatePool> {
        if days == 0 {
            Some(self.pool0())
        } else {
            match state_pool_index(self.pools, days) {
                Some(i) => Some(self.pools[i]),
                None => None,
            }
        }
    }

    /// The state with the pool for `days` replaced by `p` (for day 0, only its totals).
    pub open spec fn with_pool(self, days: u64, p: StatePool) -> StateView {
        if days == 0 {
            StateView { total_share: p.total_share, total_balance: p.total_balance, ..self }
        } else {
            StateView { pools: self.pools.update(state_pool_index(self.pools, days).unwrap(), p), ..self }
        }
    }

    /// No total overflows when `share` shares worth `amount` tokens join pool `days`.
    pub open spec fn add_share_fits(self, days: u64, share: int, amount: int) -> bool {
        match self.day_pool(days) {
            Some(p) => p.active ==> {
                &&& p.total_share + share <= u128::MAX
                &&& p.total_balance + amount <= u128::MAX
                &&& self.prev_balance + amount <= u128::MAX
            },
            None => true,
        }
    }

    /// `State::add_share`: the pool's totals and `prev_balance` grow; a missing or
    /// closed pool is refused.
    pub open spec fn add_share(self, days: u64, share: int, amount: int) -> Result<StateView, ContractError> {
        match self.day_pool(days) {
            None => Err(ContractError::PoolNotFound),
            Some(p) => if !p.active {
                Err(ContractError::PoolNotActive)
            } else {
                Ok(StateView {
                    prev_balance: (self.prev_balance + amount) as u128,
                    ..self.with_pool(days, pool_added(p, share, amount))
                })
            },
        }
    }

    /// No total goes below zero when `share` shares worth `amount` tokens leave pool `days`.
    pub open spec fn deduct_share_fits(self, days: u64, share: int, amount: int) -> bool {
        match self.day_pool(days) {
            Some(p) => {
                &&& share <= p.total_share
                &&& amount <= p.total_balance
                &&& amount <= self.prev_balance
            },
            None => true,
        }
    }

    /// `State::deduct_share`: the pool's totals and `prev_balance` shrink; closed pools pay out too.
    pub open spec fn deduct_share(self, days: u64, share: int, amount: int) -> Result<StateView, ContractError> {
        match self.day_pool(days) {
            None => Err(ContractError::PoolNotFound),
            Some(p) => Ok(StateView {
                prev_balance: (self.prev_balance - amount) as u128,
                ..self.with_pool(days, pool_deducted(p, share, amount))
            }),
        }
    }

    /// Shares for `amount` tokens in pool `days`, or `PoolNotFound`.
    pub open spec fn calc_share(self, days: u64, amount: int) -> Result<int, ContractError> {
        match self.day_pool(days) {
            Some(p) => Ok(p.share_of(amount)),
            None => Err(ContractError::PoolNotFound),
        }
    }

    /// Tokens for `share` shares of pool `days`, or `PoolNotFound`.
    pub open spec fn calc_balance(self, days: u64, share: int) -> Result<int, ContractError> {
        match self.day_pool(days) {
            Some(p) => Ok(p.balance_of(share)),
            None => Err(ContractError::PoolNotFound),
        }
    }

    pub open spec fn share_fits(self, days: u64, amount: int) -> bool {
        self.day_pool(days) matches Some(p) ==> p.share_of(amount) <= u128::MAX
    }

    pub open spec fn balance_fits(self, days: u64, share: int) -> bool {
        self.day_pool(days) matches Some(p) ==> p.balance_of(share) <= u128::MAX
    }
}

/// Removing the shares and tokens that were just added restores the pool.
pub proof fn lemma_deduct_undoes_add(s: StateView, days: u64, share: int, amount: int)
    requires
        share >= 0,
        amount >= 0,
        s.add_share(days, share, amount) is Ok,
        s.add_share_fits(days, share, amount),
    ensures
        s.add_share(days, share, amount).unwrap().deduct_share(days, share, amount) == Ok::<StateView, ContractError>(s),
{
    let t = s.add_share(days, share, amount).unwrap();
    let p = s.day_pool(days).unwrap();
    if days != 0 {
        let i = state_pool_index(s.pools, days).unwrap();
        state_days(s.pools).index_of_first_ensures(days);
        assert(state_days(t.pools) =~= state_days(s.pools)) by {
            assert forall|j: int| 0 <= j < s.pools.len() implies t.pools[j].days == s.pools[j].days by {}
        }
        assert(t.pools.update(i, pool_deducted(pool_added(p, share, amount), share, amount)) =~= s.pools);
    }
}

impl State {
    /// A copy of the state, to work on before committing.
    pub fn copy(&self) -> (r: State)
        ensures
            r@ == self@,
    {
        State {
            contract_addr: copy_vec(&self.contract_addr),
            poll_count: self.poll_count,
            poll_deposit: self.poll_deposit,
            last_mint: self.last_mint,
            total_weight: self.total_weight,
            prev_balance: self.prev_balance,
            prev_aust_balance: self.prev_aust_balance,
            vault_balances: self.vault_balances,
            pools: copy_vec(&self.pools),
            total_share: self.total_share,
            total_balance: self.total_balance,
            aust_index: self.aust_index,
        }
    }

    /// The pool for `days`, or `PoolNotFound`.
    pub fn get_pool(&self, days: u64) -> (r: Result<StatePool, ContractError>)
        ensures
            match self@.day_pool(days) {
                Some(p) => r == Ok::<StatePool, ContractError>(p),
                None => r == Err::<StatePool, ContractError>(ContractError::PoolNotFound),
            },
    {
        if days == 0 {
            Ok(StatePool {
                days: 0,
                total_share: self.total_share,
                total_balance: self.total_balance,
                active: true,
                weight: 1,
                aust_index: self.aust_index,
            })
        } else {
            match find_state_pool(&self.pools, days) {
                Some(i) => Ok(self.pools[i]),
                None => Err(ContractError::PoolNotFound),
            }
        }
    }

    /// Adds `share` shares worth `amount` tokens to the pool for `days`.
    pub fn add_share(&mut self, days: u64, share: u128, amount: u128) -> (r: Result<(), ContractError>)
        requires
            old(self)@.add_share_fits(days, share as int, amount as int),
        ensures
            match old(self)@.add_share(days, share as int, amount as int) {
                Ok(s) => r is Ok && final(self)@ == s,
                Err(e) => r == Err::<(), ContractError>(e) && final(self)@ == old(self)@,
            },
    {
        if days == 0 {
            self.total_share = self.total_share + share;
            self.total_balance = self.total_balance + amount;
        } else {
            let i = match find_state_pool(&self.pools, days) {
                Some(i) => i,
                None => return Err(ContractError::PoolNotFound),
            };
            let mut pool = self.pools[i];
            if !pool.active {
                return Err(ContractError::PoolNotActive);
            }
            pool.total_share = pool.total_share + share;
            pool.total_balance = pool.total_balance + amount;
            self.pools.set(i, pool);
        }
        self.prev_balance = self.prev_balance + amount;
        Ok(())
    }

    /// Removes `share` shares worth `amount` tokens from the pool for `days`;
    /// a closed pool still pays out.
    pub fn deduct_share(&mut self, days: u64, share: u128, amount: u128) -> (r: Result<(), ContractError>)
        requires
            old(self)@.deduct_share_fits(days, share as int, amount as int),
        ensures
            match old(self)@.deduct_share(days, share as int, amount as int) {
                Ok(s) => r is Ok && final(self)@ == s,
                Err(e) => r == Err::<(), ContractError>(e) && final(self)@ == old(self)@,
            },
    {
        if days == 0 {
            self.total_share = self.total_share - share;
            self.total_balance = self.total_balance - amount;
        } else {
            let i = match find_state_pool(&self.pools, days) {
                Some(i) => i,
                None => return Err(ContractError::PoolNotFound),
            };
            let mut pool = self.pools[i];
            pool.total_share = pool.total_share - share;
            pool.total_balance = pool.total_balance - amount;
            self.pools.set(i, pool);
        }
        self.prev_balance = self.prev_balance - amount;
        Ok(())
    }

    /// Shares issued for depositing `amount` tokens into the pool for `days`.
    pub fn calc_share(&self, days: u64, amount: u128) -> (r: Result<u128, ContractError>)
        requires
            self@.share_fits(days, amount as int),
        ensures
            match self@.calc_share(days, amount as int) {
                Ok(v) => r matches Ok(x) && x as int == v,
                Err(e) => r == Err::<u128, ContractError>(e),
            },
    {
        let pool = self.get_pool(days)?;
        Ok(pool.calc_share(amount))
    }

    /// Tokens that `share` shares of the pool for `days` are worth.
    pub fn calc_balance(&self, days: u64, share: u128) -> (r: Result<u128, ContractError>)
        requires
            self@.balance_fits(days, share as int),
        ensures
            match self@.calc_balance(days, share as int) {
                Ok(v) => r matches Ok(x) && x as int == v,
                Err(e) => r == Err::<u128, ContractError>(e),
            },
    {
        let pool = self.get_pool(days)?;
        Ok(pool.calc_balance(share))
    }
}

/// A voter's side in a poll.
#[derive(Clone, Copy, Debug, PartialEq, Eq, Structural)]
pub enum VoteOption {
    Yes,
    No,
}

/// The side and the weight of one vote.
#[derive(Clone, Copy, Debug, PartialEq, Eq, Structural)]
pub struct VoterInfo {
    pub vote: VoteOption,
    pub balance: u128,
}

/// An account's shares in the pool for one lock period.
#[derive(Clone, Copy, Debug, PartialEq, Eq, Structural)]
pub struct BalancePool {
    pub days: u64,
    pub share: u128,
    /// Block time in seconds at which the shares unlock.
    pub unlock: u64,
    pub aust_index: Decimal,
    pub pending_aust: u128,
}

/// Unlock time after `share` new shares join a locked position at `time`: the time
/// still left on the old shares and the lock period (less `time_burned`) of the new
/// shares, each weighted by its part of the new share total and rounded down.
pub open spec fn unlock_after(p: BalancePool, time: int, share: int, time_burned: int) -> int {
    let new_share = p.share + share;
    let remaining = if p.unlock < time {
        0
    } else {
        ratio(p.unlock - time, p.share as int, new_share)
    };
    let additional = ratio(SEC_IN_DAY * p.days - time_burned, share, new_share);
    time + remaining + additional
}

/// The position after `BalancePool::add_share`.
pub open spec fn balance_pool_added(p: BalancePool, time: int, share: int, time_burned: int) -> BalancePool {
    BalancePool {
        unlock: unlock_after(p, time, share, time_burned) as u64,
        share: (p.share + share) as u128,
        ..p
    }
}

/// `BalancePool::add_share` neither overflows nor divides by zero.
pub open spec fn balance_pool_add_fits(p: BalancePool, time: int, share: int, time_burned: int) -> bool {
    &&& p.share + share <= u128::MAX
    &&& p.share + share > 0
    &&& SEC_IN_DAY * p.days <= u64::MAX
    &&& time_burned <= SEC_IN_DAY * p.days
    &&& unlock_after(p, time, share, time_burned) <= u64::MAX
}

impl BalancePool {
    /// Adds `share` shares at block time `time`; the new unlock time averages the
    /// time left on the held shares and the lock period of the new ones.
    pub fn add_share(&mut self, time: u64, share: u128, time_burned: u64)
        requires
            balance_pool_add_fits(*old(self), time as int, share as int, time_burned as int),
        ensures
            *final(self) == balance_pool_added(*old(self), time as int, share as int, time_burned as int),
    {
        let new_share = self.share + share;
        let remaining: u128 = if self.unlock < time {
            0
        } else {
            proof {
                lemma_ratio_le_value((self.unlock - time) as int, self.share as int, new_share as int);
            }
            multiply_ratio((self.unlock - time) as u128, self.share, new_share)
        };
        let lock: u64 = SEC_IN_DAY * self.days - time_burned;
        proof {
            lemma_ratio_le_value(lock as int, share as int, new_share as int);
        }
        let additional = multiply_ratio(lock as u128, share, new_share);
        let add_time: u64 = (remaining + additional) as u64;
        self.unlock = time + add_time;
        self.share = new_share;
    }
}

/// Adding shares never moves the unlock time further out than the longer of the
/// time left on the held shares and the full lock period of the pool.
pub proof fn lemma_unlock_bounded(p: BalancePool, time: int, share: int, time_burned: int)
    requires
        share >= 0,
        p.share + share > 0,
        0 <= time_burned <= SEC_IN_DAY * p.days,
    ensures
        unlock_after(p, time, share, time_burned) <= time + (if p.unlock >= time && p.unlock - time >= SEC_IN_DAY * p.days - time_burned {
            p.unlock - time
        } else {
            SEC_IN_DAY * p.days - time_burned
        }),
{
    let lock = SEC_IN_DAY * p.days - time_burned;
    if p.unlock < time {
        lemma_ratio_le_value(lock, share, p.share + share);
    } else {
        lemma_weighted_parts_le_max(p.unlock - time, lock, p.share as int, share);
    }
}

/// The new shares carry the whole lock period: a position opened with `share > 0`
/// new shares unlocks exactly the lock period (less `time_burned`) after `time`,
/// whatever unlock time the empty position held.
pub proof fn lemma_fresh_position_unlocks_after_lock(p: BalancePool, time: int, share: int, time_burned: int)
    requires
        p.share == 0,
        share > 0,
        0 <= time_burned <= SEC_IN_DAY * p.days,
    ensures
        unlock_after(p, time, share, time_burned) == time + SEC_IN_DAY * p.days - time_burned,
{
    let lock = SEC_IN_DAY * p.days - time_burned;
    vstd::arithmetic::div_mod::lemma_div_by_multiple(lock, share);
    assert(lock * share == share * lock) by (nonlinear_arith);
    if p.unlock >= time {
        assert((p.unlock - time) * 0 == 0);
    }
}

/// Adding `share` new shares to a position of `p.share` shares moves its unlock
/// time to `time` plus the average of the time still left on the held shares
/// (none once it has passed) and the lock period (less `time_burned`), weighted by
/// the held and the new share counts, each part rounded down.
pub proof fn lemma_unlock_is_share_weighted(p: BalancePool, time: int, share: int, time_burned: int)
    requires
        share >= 0,
        p.share + share > 0,
    ensures
        unlock_after(p, time, share, time_burned) - time
            == (if p.unlock < time { 0 } else { p.unlock - time }) * (p.share as int) / (p.share + share)
                + (SEC_IN_DAY * p.days - time_burned) * share / (p.share + share),
{
    if p.unlock < time {
        assert(0 * (p.share as int) == 0);
        vstd::arithmetic::div_mod::lemma_div_basics(p.share + share);
    }
}

/// The lock periods of an account's positions, in order.
pub open spec fn account_days(pools: Seq<BalancePool>) -> Seq<u64> {
    pools.map_values(|p: BalancePool| p.days)
}

/// Index of an account's first position with the given lock period.
pub open spec fn account_pool_index(pools: Seq<BalancePool>, days: u64) -> Option<int> {
    account_days(pools).index_of_first(days)
}

/// Position of an account's first position with lock period `days`.
pub fn find_account_pool(pools: &Vec<BalancePool>, days: u64) -> (r: Option<usize>)
    ensures
        match r {
            Some(k) => account_pool_index(pools@, days) == Some(k as int) && k < pools.len() && pools@[k as int].days == days,
            None => account_pool_index(pools@, days) is None,
        },
{
    let mut i: usize = 0;
    while i < pools.len()
        invariant
            0 <= i <= pools.len(),
            forall|j: int| 0 <= j < i ==> pools@[j].days != days,
        decreases pools.len() - i,
    {
        if pools[i].days == days {
            proof {
                let s = account_days(pools@);
                assert forall|j: int| 0 <= j < i implies s[j] != days by {
                    assert(s[j] == pools@[j].days);
                }
                lemma_first_index(s, days, i as int);
            }
            return Some(i);
        }
        i += 1;
    }
    proof {
        let s = account_days(pools@);
        assert forall|j: int| 0 <= j < s.len() implies s[j] != days by {
            assert(s[j] == pools@[j].days);
        }
        lemma_no_index(s, days);
    }
    None
}

/// A staker of the governance contract.
pub struct Account {
    /// Shares of the day-0 pool.
    pub share: u128,
    /// The votes cast in polls, by poll id.
    pub locked_balance: Vec<(u64, VoterInfo)>,
    pub aust_index: Decimal,
    pub pending_aust: u128,
    pub pools: Vec<BalancePool>,
}

/// The value of an [`Account`].
pub struct AccountView {
    pub share: u128,
    pub locked_balance: Seq<(u64, VoterInfo)>,
    pub aust_index: Decimal,
    pub pending_aust: u128,
    pub pools: Seq<BalancePool>,
}

impl View for Account {
    type V = AccountView;

    open spec fn view(&self) -> AccountView {
        AccountView {
            share: self.share,
            locked_balance: self.locked_balance@,
            aust_index: self.aust_index,
            pending_aust: self.pending_aust,
            pools: self.pools@,
        }
    }
}

/// The empty position an account opens in the pool `sp`.
pub open spec fn new_balance_pool(days: u64, sp: StatePool) -> BalancePool {
    BalancePool { days, share: 0, unlock: 0, aust_index: sp.aust_index, pending_aust: 0 }
}

/// Balance of each position, summed in order; the first missing pool is an error.
pub open spec fn pools_balance(pools: Seq<BalancePool>, state: StateView) -> Result<int, ContractError>
    decreases pools.len(),
{
    if pools.len() == 0 {
        Ok(0)
    } else {
        match pools_balance(pools.drop_last(), state) {
            Err(e) => Err(e),
            Ok(acc) => match state.calc_balance(pools.last().days, pools.last().share as int) {
                Err(e) => Err(e),
                Ok(b) => Ok(acc + b),
            },
        }
    }
}

/// Every partial sum of [`pools_balance`] and each term in it fits in 128 bits.
pub open spec fn pools_balance_fits(pools: Seq<BalancePool>, state: StateView) -> bool
    decreases pools.len(),
{
    if pools.len() == 0 {
        true
    } else {
        &&& pools_balance_fits(pools.drop_last(), state)
        &&& pools_balance(pools.drop_last(), state) matches Ok(acc) ==> {
            &&& state.balance_fits(pools.last().days, pools.last().share as int)
            &&& state.calc_balance(pools.last().days, pools.last().share as int) matches Ok(b) ==> acc + b <= u128::MAX
        }
    }
}

pub proof fn lemma_pools_balance_fits_prefix(pools: Seq<BalancePool>, state: StateView, k: int)
    requires
        0 <= k <= pools.len(),
        pools_balance_fits(pools, state),
    ensures
        pools_balance_fits(pools.take(k), state),
    decreases pools.len(),
{
    if k == pools.len() {
        assert(pools.take(k) =~= pools);
    } else {
        assert(pools.drop_last().take(k) =~= pools.take(k));
        lemma_pools_balance_fits_prefix(pools.drop_last(), state, k);
    }
}

/// Once a prefix of the positions fails to convert, every longer prefix fails the same way.
pub proof fn lemma_pools_balance_err_persists(pools: Seq<BalancePool>, state: StateView, k: int)
    requires
        0 <= k <= pools.len(),
        pools_balance(pools.take(k), state) is Err,
    ensures
        pools_balance(pools, state) == pools_balance(pools.take(k), state),
    decreases pools.len(),
{
    if k == pools.len() {
        assert(pools.take(k) =~= pools);
    } else {
        assert(pools.drop_last().take(k) =~= pools.take(k));
        lemma_pools_balance_err_persists(pools.drop_last(), state, k);
    }
}

impl AccountView {
    /// The position in pool `days` that `add_share` adds to: the existing one, or a new empty one.
    pub open spec fn position_for(self, days: u64, state: StateView) -> BalancePool {
        match account_pool_index(self.pools, days) {
            Some(i) => self.pools[i],
            None => new_balance_pool(days, state.day_pool(days).unwrap()),
        }
    }

    /// `Account::add_share` neither overflows nor divides by zero.
    pub open spec fn add_share_fits(self, days: u64, time: int, share: int, time_burned: int, state: StateView) -> bool {
        if days == 0 {
            self.share + share <= u128::MAX
        } else {
            (account_pool_index(self.pools, days) is Some || state.day_pool(days) is Some) ==> balance_pool_add_fits(
                self.position_for(days, state), time, share, time_burned)
        }
    }

    /// `Account::add_share`: day-0 shares grow, or the position in pool `days` (opened
    /// when missing, refused when the state has no such pool) takes the shares.
    pub open spec fn add_share(self, days: u64, time: int, share: int, time_burned: int, state: StateView) -> Result<AccountView, ContractError> {
        if days == 0 {
            Ok(AccountView { share: (self.share + share) as u128, ..self })
        } else {
            match account_pool_index(self.pools, days) {
                Some(i) => Ok(AccountView {
                    pools: self.pools.update(i, balance_pool_added(self.pools[i], time, share, time_burned)),
                    ..self
                }),
                None => match state.day_pool(days) {
                    None => Err(ContractError::PoolNotFound),
                    Some(sp) => Ok(AccountView {
                        pools: self.pools.push(balance_pool_added(new_balance_pool(days, sp), time, share, time_burned)),
                        ..self
                    }),
                },
            }
        }
    }

    pub open spec fn deduct_share_fits(self, days: u64, share: int) -> bool {
        if days == 0 {
            share <= self.share
        } else {
            account_pool_index(self.pools, days) matches Some(i) ==> share <= self.pools[i].share
        }
    }

    /// `Account::deduct_share`: the new account and the unlock time it returns.
    pub open spec fn deduct_share(self, days: u64, share: int, time: Option<u64>) -> Result<(AccountView, u64), ContractError> {
        if days == 0 {
            Ok((AccountView { share: (self.share - share) as u128, ..self }, 0))
        } else {
            match account_pool_index(self.pools, days) {
                None => Err(ContractError::PoolNotFound),
                Some(i) => {
                    let p = self.pools[i];
                    if time matches Some(t) && p.unlock > t {
                        Err(ContractError::PoolLocked)
                    } else {
                        Ok((AccountView { pools: self.pools.update(i, BalancePool { share: (p.share - share) as u128, ..p }), ..self }, p.unlock))
                    }
                },
            }
        }
    }

    /// Balance of the shares in pool `days`; zero without a position there.
    pub open spec fn calc_balance(self, days: u64, state: StateView) -> Result<int, ContractError> {
        if days == 0 {
            state.calc_balance(0, self.share as int)
        } else {
            match account_pool_index(self.pools, days) {
                Some(i) => state.calc_balance(days, self.pools[i].share as int),
                None => Ok(0),
            }
        }
    }

    pub open spec fn calc_balance_fits(self, days: u64, state: StateView) -> bool {
        if days == 0 {
            state.balance_fits(0, self.share as int)
        } else {
            account_pool_index(self.pools, days) matches Some(i) ==> state.balance_fits(days, self.pools[i].share as int)
        }
    }

    /// Sum of the balances of all positions: the day-0 shares, then each pool in order.
    pub open spec fn total_balance(self, state: StateView) -> Result<int, ContractError> {
        match pools_balance(self.pools, state) {
            Ok(t) => Ok(state.pool0().balance_of(self.share as int) + t),
            Err(e) => Err(e),
        }
    }

    pub open spec fn total_balance_fits(self, state: StateView) -> bool {
        &&& state.balance_fits(0, self.share as int)
        &&& pools_balance_fits(self.pools, state)
        &&& self.total_balance(state) matches Ok(t) ==> t <= u128::MAX
    }

    /// Pending aUST reward of the position in pool `days` (zero without one).
    pub open spec fn get_aust(self, days: u64) -> u128 {
        if days == 0 {
            self.pending_aust
        } else {
            match account_pool_index(self.pools, days) {
                Some(i) => self.pools[i].pending_aust,
                None => 0,
            }
        }
    }

    /// `Account::deduct_aust`.
    pub open spec fn deduct_aust(self, days: u64, amount: int) -> Result<AccountView, ContractError> {
        if days == 0 {
            Ok(AccountView { pending_aust: (self.pending_aust - amount) as u128, ..self })
        } else {
            match account_pool_index(self.pools, days) {
                None => Err(ContractError::PoolNotFound),
                Some(i) => Ok(AccountView {
                    pools: self.pools.update(i, BalancePool { pending_aust: (self.pools[i].pending_aust - amount) as u128, ..self.pools[i] }),
                    ..self
                }),
            }
        }
    }
}

impl Account {
    /// A copy of the account, to work on before committing.
    pub fn copy(&self) -> (r: Account)
        ensures
            r@ == self@,
    {
        Account {
            share: self.share,
            locked_balance: copy_vec(&self.locked_balance),
            aust_index: self.aust_index,
            pending_aust: self.pending_aust,
            pools: copy_vec(&self.pools),
        }
    }

    /// An account without shares, entering the day-0 pool at its current index.
    pub fn create(state: &State) -> (r: Account)
        ensures
            r@ == (AccountView {
                share: 0,
                locked_balance: Seq::empty(),
                aust_index: state.aust_index,
                pending_aust: 0,
                pools: Seq::empty(),
            }),
    {
        Account {
            share: 0,
            pending_aust: 0,
            aust_index: state.aust_index,
            pools: Vec::new(),
            locked_balance: Vec::new(),
        }
    }

    /// Adds `share` shares of the pool for `days` at block time `time`, opening a
    /// position when the account has none in that pool.
    pub fn add_share(&mut self, days: u64, time: u64, share: u128, time_burned: u64, state: &State) -> (r: Result<(), ContractError>)
        requires
            old(self)@.add_share_fits(days, time as int, share as int, time_burned as int, state@),
        ensures
            match old(self)@.add_share(days, time as int, share as int, time_burned as int, state@) {
                Ok(a) => r is Ok && final(self)@ == a,
                Err(e) => r == Err::<(), ContractError>(e) && final(self)@ == old(self)@,
            },
    {
        if days == 0 {
            self.share = self.share + share;
            return Ok(());
        }
        let i = match find_account_pool(&self.pools, days) {
            Some(i) => i,
            None => {
                let state_pool = state.get_pool(days)?;
                self.pools.push(BalancePool {
                    days,
                    share: 0,
                    unlock: 0,
                    aust_index: state_pool.aust_index,
                    pending_aust: 0,
                });
                self.pools.len() - 1
            },
        };
        let mut pool = self.pools[i];
        pool.add_share(time, share, time_burned);
        self.pools.set(i, pool);
        proof {
            if account_pool_index(old(self).pools@, days) is None {
                assert(self.pools@ =~= old(self).pools@.push(pool));
            }
        }
        Ok(())
    }

    /// Removes `share` shares of pool `days`; with a block time given, a pool whose
    /// unlock time is later refuses. Returns the position's unlock time (0 for day 0).
    pub fn deduct_share(&mut self, days: u64, share: u128, time: Option<u64>) -> (r: Result<u64, ContractError>)
        requires
            old(self)@.deduct_share_fits(days, share as int),
        ensures
            match old(self)@.deduct_share(days, share as int, time) {
                Ok((a, unlock)) => r == Ok::<u64, ContractError>(unlock) && final(self)@ == a,
                Err(e) => r == Err::<u64, ContractError>(e) && final(self)@ == old(self)@,
            },
    {
        if days == 0 {
            self.share = self.share - share;
            return Ok(0);
        }
        let i = match find_account_pool(&self.pools, days) {
            Some(i) => i,
            None => return Err(ContractError::PoolNotFound),
        };
        let mut pool = self.pools[i];
        if let Some(t) = time {
            if pool.unlock > t {
                return Err(ContractError::PoolLocked);
            }
        }
        pool.share = pool.share - share;
        self.pools.set(i, pool);
        Ok(pool.unlock)
    }

    /// Tokens that this account's shares in pool `days` are worth.
    pub fn calc_balance(&self, days: u64, state: &State) -> (r: Result<u128, ContractError>)
        requires
            self@.calc_balance_fits(days, state@),
        ensures
            match self@.calc_balance(days, state@) {
                Ok(v) => r matches Ok(x) && x as int == v,
                Err(e) => r == Err::<u128, ContractError>(e),
            },
    {
        if days == 0 {
            state.calc_balance(0, self.share)
        } else {
            match find_account_pool(&self.pools, days) {
                Some(i) => state.calc_balance(self.pools[i].days, self.pools[i].share),
                None => Ok(0),
            }
        }
    }

    /// Tokens that all of this account's shares are worth.
    pub fn calc_total_balance(&self, state: &State) -> (r: Result<u128, ContractError>)
        requires
            self@.total_balance_fits(state@),
        ensures
            match self@.total_balance(state@) {
                Ok(v) => r matches Ok(x) && x as int == v,
                Err(e) => r == Err::<u128, ContractError>(e),
            },
    {
        let b0 = state.calc_balance(0, self.share)?;
        let mut acc: u128 = 0;
        let mut i: usize = 0;
        while i < self.pools.len()
            invariant
                0 <= i <= self.pools@.len(),
                pools_balance_fits(self.pools@, state@),
                pools_balance(self.pools@.take(i as int), state@) == Ok::<int, ContractError>(acc as int),
            decreases self.pools@.len() - i,
        {
            let p = self.pools[i];
            proof {
                lemma_pools_balance_fits_prefix(self.pools@, state@, i + 1);
                assert(self.pools@.take(i + 1).drop_last() =~= self.pools@.take(i as int));
                assert(self.pools@.take(i + 1).last() == p);
            }
            let b = match state.calc_balance(p.days, p.share) {
                Ok(b) => b,
                Err(e) => {
                    proof {
                        lemma_pools_balance_err_persists(self.pools@, state@, i + 1);
                    }
                    return Err(e);
                },
            };
            acc = acc + b;
            i += 1;
        }
        proof {
            assert(self.pools@.take(i as int) =~= self.pools@);
        }
        Ok(b0 + acc)
    }

    /// Pending aUST reward of the position in pool `days` (zero without one).
    pub fn get_aust(&self, days: u64) -> (r: u128)
        ensures
            r == self@.get_aust(days),
    {
        if days == 0 {
            self.pending_aust
        } else {
            match find_account_pool(&self.pools, days) {
                Some(i) => self.pools[i].pending_aust,
                None => 0,
            }
        }
    }

    /// Removes `amount` from the pending aUST reward of the position in pool `days`.
    pub fn deduct_aust(&mut self, days: u64, amount: u128) -> (r: Result<(), ContractError>)
        requires
            days == 0 ==> amount <= old(self).pending_aust,
            days != 0 ==> (account_pool_index(old(self).pools@, days) matches Some(i) ==> amount <= old(self).pools@[i].pending_aust),
        ensures
            match old(self)@.deduct_aust(days, amount as int) {
                Ok(a) => r is Ok && final(self)@ == a,
                Err(e) => r == Err::<(), ContractError>(e) && final(self)@ == old(self)@,
            },
    {
        if days == 0 {
            self.pending_aust = self.pending_aust - amount;
            return Ok(());
        }
        let i = match find_account_pool(&self.pools, days) {
            Some(i) => i,
            None => return Err(ContractError::PoolNotFound),
        };
        let mut pool = self.pools[i];
        pool.pending_aust = pool.pending_aust - amount;
        self.pools.set(i, pool);
        Ok(())
    }
}

} // verus!
