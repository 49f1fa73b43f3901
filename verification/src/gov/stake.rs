//! Staking, withdrawing and minting in the governance contract.

use vstd::prelude::*;
use crate::common::addr_eq;
use crate::error::ContractError;
use crate::gov::reconcile::{reconcile_balance, reconcile_fits, reconciled};
use crate::gov::state::{Account, AccountView, Config, State, StatePool, StateView, Vault, VoterInfo};
use crate::math::{multiply_ratio, mul_dec, ratio, spec_mul_dec};

verus! {

/// Tokens minted per block over the blocks since the later of the last mint and the
/// mint start, up to the earlier of `height` and the mint end.
pub open spec fn mintable_at(s: StateView, c: Config, height: u64) -> int {
    let last_mint = if c.mint_start > s.last_mint { c.mint_start } else { s.last_mint };
    let h = if height < c.mint_end { height } else { c.mint_end };
    if last_mint < h {
        c.mint_per_block * (h - last_mint)
    } else {
        0
    }
}

/// Tokens the governance contract may mint at `height`.
pub fn calc_mintable(state: &State, config: &Config, height: u64) -> (r: u128)
    requires
        mintable_at(state@, *config, height) <= u128::MAX,
    ensures
        r as int == mintable_at(state@, *config, height),
{
    let last_mint = if config.mint_start > state.last_mint {
        config.mint_start
    } else {
        state.last_mint
    };
    let height = if height < config.mint_end {
        height
    } else {
        config.mint_end
    };
    if last_mint < height {
        let diff: u128 = (height - last_mint) as u128;
        config.mint_per_block * diff
    } else {
        0
    }
}

/// Refuses to go on while minting is due but has not happened at this height.
pub fn validate_minted(state: &State, config: &Config, height: u64) -> (r: Result<(), ContractError>)
    ensures
        r == if state.last_mint < config.mint_end && state.last_mint != height {
            Err::<(), ContractError>(ContractError::MintRequired)
        } else {
            Ok(())
        },
{
    if state.last_mint < config.mint_end && state.last_mint != height {
        Err(ContractError::MintRequired)
    } else {
        Ok(())
    }
}

/// What one mint hands out: the minted amount, the day-0 shares credited to the
/// war chest, and the day-0 shares credited to each vault, in the order given.
pub struct MintOutcome {
    pub mintable: u128,
    pub warchest_share: u128,
    pub vault_shares: Vec<u128>,
}

/// Whether the war chest takes a part of the mint.
pub open spec fn warchest_enabled(c: Config) -> bool {
    c.warchest_address@.len() != 0 && c.warchest_ratio.atomics != 0
}

/// Tokens of the mint that go to the war chest.
pub open spec fn to_warchest(c: Config, mintable: int) -> int {
    if warchest_enabled(c) { spec_mul_dec(mintable, c.warchest_ratio) } else { 0 }
}

/// A vault's shares of a mint: its weight's part of the vault shares, rounded down.
pub open spec fn vault_share(share: int, weight: u32, total_weight: u32) -> int {
    ratio(share, weight as int, total_weight as int)
}

/// Sum of the vault shares of the first `vaults.len()` vaults.
pub open spec fn vault_shares_sum(share: int, vaults: Seq<Vault>, total_weight: u32) -> int
    decreases vaults.len(),
{
    if vaults.len() == 0 {
        0
    } else {
        vault_shares_sum(share, vaults.drop_last(), total_weight) + vault_share(share, vaults.last().weight, total_weight)
    }
}

/// The state reconciled for a mint, when the balance covers the poll deposits.
pub open spec fn mint_reconciled(s: StateView, token_balance: u128) -> StateView {
    reconciled(s, (token_balance - s.poll_deposit) as u128)
}

/// A mint neither overflows nor divides by zero.
pub open spec fn mint_fits(s: StateView, c: Config, height: u64, token_balance: u128, vaults: Seq<Vault>) -> bool {
    let m = mintable_at(s, c, height);
    &&& m <= u128::MAX
    &&& (m != 0 && token_balance >= s.poll_deposit) ==> {
        let s1 = mint_reconciled(s, token_balance);
        let p0 = s1.pool0();
        let tw = to_warchest(c, m);
        let share = p0.share_of(m - tw);
        &&& reconcile_fits(s, (token_balance - s.poll_deposit) as u128)
        &&& tw <= u128::MAX
        &&& p0.share_of(tw) <= u128::MAX
        &&& tw <= m ==> {
            &&& share <= u128::MAX
            &&& vaults.len() > 0 ==> s1.total_weight > 0
            &&& forall|k: int| 0 <= k <= vaults.len() ==> {
                &&& #[trigger] vault_shares_sum(share, vaults.take(k), s1.total_weight) + (if warchest_enabled(c) { p0.share_of(tw) } else { 0 }) <= u128::MAX
            }
            &&& forall|k: int| 0 <= k < vaults.len() ==> vault_share(share, #[trigger] vaults[k].weight, s1.total_weight) <= u128::MAX
            &&& s1.total_share + vault_shares_sum(share, vaults, s1.total_weight) + (if warchest_enabled(c) { p0.share_of(tw) } else { 0 }) <= u128::MAX
            &&& s1.total_balance + m <= u128::MAX
        }
    }
}

/// Mints the SPEC due at `height`: first reconciles the pools with `token_balance`
/// (the contract's SPEC balance), then credits the war chest its ratio of the mint
/// and splits the rest among the vaults by weight, all as day-0 shares priced before
/// the mint. Without anything to mint, only the last mint height moves.
pub fn mint(state: &mut State, config: &Config, height: u64, token_balance: u128, vaults: &Vec<Vault>) -> (r: Result<MintOutcome, ContractError>)
    requires
        mint_fits(old(state)@, *config, height, token_balance, vaults@),
    ensures
        ({
            let s = old(state)@;
            let m = mintable_at(s, *config, height);
            if m == 0 {
                &&& r matches Ok(o) && o.mintable == 0 && o.warchest_share == 0 && o.vault_shares@.len() == 0
                &&& final(state)@ == if s.last_mint < config.mint_end { StateView { last_mint: height, ..s } } else { s }
            } else if token_balance < s.poll_deposit {
                r == Err::<MintOutcome, ContractError>(ContractError::Overflow) && final(state)@ == s
            } else {
                let s1 = mint_reconciled(s, token_balance);
                let p0 = s1.pool0();
                let tw = to_warchest(*config, m);
                if tw > m {
                    r == Err::<MintOutcome, ContractError>(ContractError::Overflow)
                } else {
                    let share = p0.share_of(m - tw);
                    let ws = if warchest_enabled(*config) { p0.share_of(tw) } else { 0 };
                    &&& r is Ok
                    &&& r.unwrap().mintable == m
                    &&& r.unwrap().warchest_share == ws
                    &&& r.unwrap().vault_shares@.len() == vaults@.len()
                    &&& forall|k: int| 0 <= k < vaults@.len() ==>
                        r.unwrap().vault_shares@[k] == vault_share(share, #[trigger] vaults@[k].weight, s1.total_weight)
                    &&& final(state)@ == StateView {
                        total_share: (s1.total_share + ws + vault_shares_sum(share, vaults@, s1.total_weight)) as u128,
                        total_balance: (s1.total_balance + m) as u128,
                        last_mint: height,
                        ..s1
                    }
                }
            }
        }),
        r is Err ==> final(state)@ == old(state)@,
{
    let mintable = calc_mintable(state, config, height);
    if mintable == 0 {
        if state.last_mint < config.mint_end {
            state.last_mint = height;
        }
        return Ok(MintOutcome { mintable: 0, warchest_share: 0, vault_shares: Vec::new() });
    }
    if token_balance < state.poll_deposit {
        return Err(ContractError::Overflow);
    }
    let total_balance = token_balance - state.poll_deposit;
    let mut st = state.copy();
    reconcile_balance(&mut st, total_balance)?;
    let pool0 = st.get_pool(0)?;

    let mut mint_share: u128 = 0;
    let mut to_warchest: u128 = 0;
    let mut warchest_share: u128 = 0;
    if config.warchest_address.len() != 0 && !config.warchest_ratio.is_zero() {
        to_warchest = mul_dec(mintable, config.warchest_ratio);
        warchest_share = pool0.calc_share(to_warchest);
        mint_share = warchest_share;
    }
    if to_warchest > mintable {
        return Err(ContractError::Overflow);
    }
    let share = pool0.calc_share(mintable - to_warchest);
    let mut vault_shares: Vec<u128> = Vec::new();
    let mut i: usize = 0;
    while i < vaults.len()
        invariant
            0 <= i <= vaults@.len(),
            vault_shares@.len() == i,
            vaults@.len() > 0 ==> st.total_weight > 0,
            forall|k: int| 0 <= k <= vaults@.len() ==> #[trigger] vault_shares_sum(share as int, vaults@.take(k), st.total_weight) + warchest_share <= u128::MAX,
            forall|k: int| 0 <= k < vaults@.len() ==> vault_share(share as int, #[trigger] vaults@[k].weight, st.total_weight) <= u128::MAX,
            mint_share == vault_shares_sum(share as int, vaults@.take(i as int), st.total_weight) + warchest_share,
            forall|k: int| 0 <= k < i ==> vault_shares@[k] == vault_share(share as int, #[trigger] vaults@[k].weight, st.total_weight),
        decreases vaults@.len() - i,
    {
        let vault_share_i = multiply_ratio(share, vaults[i].weight as u128, st.total_weight as u128);
        proof {
            assert(vaults@.take(i + 1).drop_last() =~= vaults@.take(i as int));
            assert(vaults@.take(i + 1).last() == vaults@[i as int]);
            assert(vault_shares_sum(share as int, vaults@.take(i + 1), st.total_weight) + warchest_share <= u128::MAX);
        }
        mint_share = mint_share + vault_share_i;
        vault_shares.push(vault_share_i);
        i += 1;
    }
    proof {
        assert(vaults@.take(i as int) =~= vaults@);
    }
    st.total_share = st.total_share + mint_share;
    st.total_balance = st.total_balance + mintable;
    st.last_mint = height;
    *state = st;
    Ok(MintOutcome { mintable, warchest_share, vault_shares })
}

/// The shares issued for a stake of `amount` into pool `days` and the states
/// after it: the pool and the account both take the shares.
pub open spec fn staked(s: StateView, a: AccountView, amount: int, days: u64, time: u64) -> Result<(int, StateView, AccountView), ContractError> {
    match s.calc_share(days, amount) {
        Err(e) => Err(e),
        Ok(share) => match s.add_share(days, share, amount) {
            Err(e) => Err(e),
            Ok(s2) => match a.add_share(days, time as int, share, 0, s2) {
                Err(e) => Err(e),
                Ok(a2) => Ok((share, s2, a2)),
            },
        },
    }
}

/// A stake neither overflows nor divides by zero.
pub open spec fn stake_fits(s: StateView, a: AccountView, current_balance: u128, amount: u128, days: u64, time: u64) -> bool {
    amount != 0 ==> {
        &&& s.poll_deposit + amount <= u128::MAX
        &&& current_balance >= s.poll_deposit + amount ==> {
            let s1 = reconciled(s, (current_balance - s.poll_deposit - amount) as u128);
            &&& reconcile_fits(s, (current_balance - s.poll_deposit - amount) as u128)
            &&& s1.share_fits(days, amount as int)
            &&& s1.calc_share(days, amount as int) matches Ok(share) ==> {
                &&& share <= u128::MAX
                &&& s1.add_share_fits(days, share, amount as int)
                &&& s1.add_share(days, share, amount as int) matches Ok(s2) ==> a.add_share_fits(days, time as int, share, 0, s2)
            }
        }
    }
}

/// Stakes `amount` SPEC that the contract has just received (so `current_balance`,
/// its SPEC balance, already holds them) into pool `days` for an account, at block
/// time `time`. Returns the shares issued.
pub fn stake_tokens(state: &mut State, account: &mut Account, current_balance: u128, amount: u128, days: u64, time: u64) -> (r: Result<u128, ContractError>)
    requires
        stake_fits(old(state)@, old(account)@, current_balance, amount, days, time),
    ensures
        ({
            let s = old(state)@;
            let a = old(account)@;
            if amount == 0 {
                r == Err::<u128, ContractError>(ContractError::InsufficientFunds) && final(state)@ == s && final(account)@ == a
            } else if current_balance < s.poll_deposit + amount {
                r == Err::<u128, ContractError>(ContractError::Overflow) && final(state)@ == s && final(account)@ == a
            } else {
                let s1 = reconciled(s, (current_balance - s.poll_deposit - amount) as u128);
                match staked(s1, a, amount as int, days, time) {
                    Ok((share, s2, a2)) => r matches Ok(x) && x as int == share && final(state)@ == s2 && final(account)@ == a2,
                    Err(e) => r == Err::<u128, ContractError>(e),
                }
            }
        }),
        r is Err ==> final(state)@ == old(state)@ && final(account)@ == old(account)@,
{
    if amount == 0 {
        return Err(ContractError::InsufficientFunds);
    }
    let deposit = state.poll_deposit + amount;
    if current_balance < deposit {
        return Err(ContractError::Overflow);
    }
    let mut s = state.copy();
    let mut a = account.copy();
    reconcile_balance(&mut s, current_balance - deposit)?;
    let share = s.calc_share(days, amount)?;
    s.add_share(days, share, amount)?;
    a.add_share(days, time, share, 0, &s)?;
    *state = s;
    *account = a;
    Ok(share)
}

/// The votes of polls still in progress, in order (`flags[i]` tells whether the poll
/// of the `i`-th vote is in progress).
pub open spec fn retained_votes(locked: Seq<(u64, VoterInfo)>, flags: Seq<bool>, k: int) -> Seq<(u64, VoterInfo)>
    decreases k,
{
    if k <= 0 {
        Seq::empty()
    } else {
        let rest = retained_votes(locked, flags, k - 1);
        if flags[k - 1] { rest.push(locked[k - 1]) } else { rest }
    }
}

/// The largest vote weight, zero without votes.
pub open spec fn max_vote(votes: Seq<(u64, VoterInfo)>) -> int
    decreases votes.len(),
{
    if votes.len() == 0 {
        0
    } else {
        let m = max_vote(votes.drop_last());
        if votes.last().1.balance as int > m { votes.last().1.balance as int } else { m }
    }
}

/// The account after dropping the votes of finished polls.
pub open spec fn with_open_votes(a: AccountView, flags: Seq<bool>) -> AccountView {
    AccountView { locked_balance: retained_votes(a.locked_balance, flags, a.locked_balance.len() as int), ..a }
}

/// Drops the votes of polls no longer in progress (`in_progress[i]` tells it for the
/// `i`-th vote) and returns the largest weight still locked in a vote.
pub fn compute_locked_balance(account: &mut Account, in_progress: &Vec<bool>) -> (r: u128)
    requires
        in_progress@.len() == old(account).locked_balance@.len(),
    ensures
        final(account)@ == with_open_votes(old(account)@, in_progress@),
        r as int == max_vote(final(account).locked_balance@),
{
    let mut kept: Vec<(u64, VoterInfo)> = Vec::new();
    let mut max: u128 = 0;
    let mut i: usize = 0;
    while i < account.locked_balance.len()
        invariant
            in_progress@.len() == account.locked_balance@.len(),
            0 <= i <= account.locked_balance@.len(),
            kept@ == retained_votes(account.locked_balance@, in_progress@, i as int),
            max as int == max_vote(kept@),
        decreases account.locked_balance@.len() - i,
    {
        if in_progress[i] {
            let v = account.locked_balance[i];
            proof {
                assert(kept@.push(v).drop_last() =~= kept@);
            }
            if v.1.balance > max {
                max = v.1.balance;
            }
            kept.push(v);
        }
        i += 1;
    }
    account.locked_balance = kept;
    max
}

/// Shares to burn for withdrawing `amount` tokens from pool `p`: rounded up so that
/// they are worth at least `amount`.
pub open spec fn withdraw_share_of(p: StatePool, amount: int) -> int {
    let share = p.share_of(amount);
    if p.balance_of(share) < amount { share + 1 } else { share }
}

/// The amount a withdrawal asks for: the given amount, or all that is not locked in votes.
pub open spec fn withdraw_amount(user_balance: int, locked: int, amount: Option<u128>) -> int {
    match amount {
        Some(x) => x as int,
        None => user_balance - locked,
    }
}

/// A withdrawal neither overflows, nor divides by zero, nor takes more shares than held.
pub open spec fn withdraw_fits(s: StateView, a: AccountView, flags: Seq<bool>, token_balance: u128, amount: Option<u128>, days: u64) -> bool {
    token_balance >= s.poll_deposit ==> {
        let s1 = reconciled(s, (token_balance - s.poll_deposit) as u128);
        let a1 = with_open_votes(a, flags);
        let locked = max_vote(a1.locked_balance);
        &&& reconcile_fits(s, (token_balance - s.poll_deposit) as u128)
        &&& a1.total_balance_fits(s1)
        &&& a1.total_balance(s1) matches Ok(ub) ==> {
            let amt = withdraw_amount(ub, locked, amount);
            &&& amount is None ==> locked <= ub
            &&& locked + amt <= u128::MAX
            &&& locked + amt <= ub ==> (s1.day_pool(days) matches Some(p) ==> {
                &&& p.share_of(amt) < u128::MAX
                &&& p.balance_of(p.share_of(amt)) <= u128::MAX
                &&& a1.deduct_share_fits(days, withdraw_share_of(p, amt))
                &&& s1.deduct_share_fits(days, withdraw_share_of(p, amt), amt)
            })
        }
    }
}

/// Withdraws SPEC from pool `days` at block time `time` for a staker whose account
/// is `account` (`None` when the staker never staked): by default all of the
/// account's balance that is not locked in votes of polls still in progress.
/// Returns the amount to transfer to the staker; on a refusal nothing changes.
pub fn withdraw(state: &mut State, account: &mut Option<Account>, in_progress: &Vec<bool>, token_balance: u128, amount: Option<u128>, days: u64, time: u64) -> (r: Result<u128, ContractError>)
    requires
        *old(account) matches Some(acc) ==> {
            &&& in_progress@.len() == acc.locked_balance@.len()
            &&& withdraw_fits(old(state)@, acc@, in_progress@, token_balance, amount, days)
        },
    ensures
        *old(account) is None ==> r == Err::<u128, ContractError>(ContractError::NothingStaked),
        r is Err ==> final(state)@ == old(state)@ && *final(account) == *old(account),
        *old(account) matches Some(acc) ==> ({
            let s = old(state)@;
            let a = acc@;
            if token_balance < s.poll_deposit {
                r == Err::<u128, ContractError>(ContractError::Overflow)
            } else {
                let s1 = reconciled(s, (token_balance - s.poll_deposit) as u128);
                let a1 = with_open_votes(a, in_progress@);
                let locked = max_vote(a1.locked_balance);
                match a1.total_balance(s1) {
                    Err(e) => r == Err::<u128, ContractError>(e),
                    Ok(ub) => {
                        let amt = withdraw_amount(ub, locked, amount);
                        if locked + amt > ub {
                            r == Err::<u128, ContractError>(ContractError::WithdrawTooMuch)
                        } else {
                            match s1.day_pool(days) {
                                None => r == Err::<u128, ContractError>(ContractError::PoolNotFound),
                                Some(p) => {
                                    let ws = withdraw_share_of(p, amt);
                                    match a1.deduct_share(days, ws, Some(time)) {
                                        Err(e) => r == Err::<u128, ContractError>(e),
                                        Ok((a2, _)) => match s1.deduct_share(days, ws, amt) {
                                            Err(e) => r == Err::<u128, ContractError>(e),
                                            Ok(s2) => {
                                                &&& r matches Ok(x) && x as int == amt
                                                &&& final(state)@ == s2
                                                &&& *final(account) matches Some(fa) && fa@ == a2
                                            },
                                        },
                                    }
                                },
                            }
                        }
                    },
                }
            }
        }),
{
    let mut a = match account {
        Some(acc) => acc.copy(),
        None => {
            return Err(ContractError::NothingStaked);
        },
    };
    if token_balance < state.poll_deposit {
        return Err(ContractError::Overflow);
    }
    let mut s = state.copy();
    reconcile_balance(&mut s, token_balance - state.poll_deposit)?;
    let locked_balance = compute_locked_balance(&mut a, in_progress);
    let user_balance = a.calc_total_balance(&s)?;
    let amount = match amount {
        Some(x) => x,
        None => user_balance - locked_balance,
    };
    if locked_balance + amount > user_balance {
        return Err(ContractError::WithdrawTooMuch);
    }
    let state_pool = s.get_pool(days)?;
    let mut withdraw_share = state_pool.calc_share(amount);
    if state_pool.calc_balance(withdraw_share) < amount {
        withdraw_share = withdraw_share + 1;
    }
    a.deduct_share(days, withdraw_share, Some(time))?;
    s.deduct_share(days, withdraw_share, amount)?;
    *state = s;
    *account = Some(a);
    Ok(amount)
}

/// Sets the mint weight of a vault (`vault` is its record, the default one when it
/// has none) to `weight`; only the owner may, and only once minting is up to date.
/// Returns whether the record is kept: a weight of zero removes the vault.
pub fn upsert_vault(state: &mut State, config: &Config, sender: &Vec<u8>, height: u64, vault: &mut Vault, weight: u32) -> (r: Result<bool, ContractError>)
    requires
        config.owner@ == sender@ ==> old(state).total_weight + weight <= u32::MAX,
        config.owner@ == sender@ ==> old(state).total_weight + weight >= old(vault).weight,
    ensures
        ({
            let s = old(state)@;
            if config.owner@ != sender@ {
                r == Err::<bool, ContractError>(ContractError::Unauthorized)
            } else if s.last_mint < config.mint_end && s.last_mint != height {
                r == Err::<bool, ContractError>(ContractError::MintRequired)
            } else {
                &&& r == Ok::<bool, ContractError>(weight != 0)
                &&& final(state)@ == StateView { total_weight: (s.total_weight + weight - old(vault).weight) as u32, ..s }
                &&& *final(vault) == Vault { weight, ..*old(vault) }
            }
        }),
        r is Err ==> final(state)@ == old(state)@ && *final(vault) == *old(vault),
{
    if !addr_eq(&config.owner, sender) {
        return Err(ContractError::Unauthorized);
    }
    validate_minted(state, config, height)?;
    state.total_weight = state.total_weight + weight - vault.weight;
    vault.weight = weight;
    Ok(weight != 0)
}

/// Minting in two steps, up to `h1` and then up to `h2`, mints as much as minting
/// once up to `h2`.
pub proof fn lemma_mint_in_two_steps(s: StateView, c: Config, h1: u64, h2: u64)
    requires
        s.last_mint <= h1 <= h2,
    ensures
        mintable_at(s, c, h1) + mintable_at(StateView { last_mint: h1, ..s }, c, h2) == mintable_at(s, c, h2),
{
    let per = c.mint_per_block as int;
    let la = if c.mint_start > s.last_mint { c.mint_start } else { s.last_mint };
    let lb = if c.mint_start > h1 { c.mint_start } else { h1 };
    let hb = if h1 < c.mint_end { h1 } else { c.mint_end };
    let hc = if h2 < c.mint_end { h2 } else { c.mint_end };
    if la < hb && lb < hc {
        assert(per * (hb - la) + per * (hc - lb) == per * (hc - la)) by (nonlinear_arith)
            requires hb == lb;
    }
}

/// Nothing more can be minted at the height of the last mint.
pub proof fn lemma_mint_at_last_mint(s: StateView, c: Config)
    ensures
        mintable_at(s, c, s.last_mint) == 0,
{
}

/// The mintable amount never decreases as the chain grows.
pub proof fn lemma_mintable_monotonic(s: StateView, c: Config, h1: u64, h2: u64)
    requires
        h1 <= h2,
    ensures
        mintable_at(s, c, h1) <= mintable_at(s, c, h2),
{
    let per = c.mint_per_block as int;
    let la = if c.mint_start > s.last_mint { c.mint_start } else { s.last_mint };
    let hb = if h1 < c.mint_end { h1 } else { c.mint_end };
    let hc = if h2 < c.mint_end { h2 } else { c.mint_end };
    if la < hb {
        assert(per * (hb - la) <= per * (hc - la)) by (nonlinear_arith)
            requires per >= 0, hb <= hc;
    }
    if la < hc {
        assert(per * (hc - la) >= 0) by (nonlinear_arith)
            requires per >= 0, la < hc;
    }
}

/// Sum of the vaults' mint weights.
pub open spec fn vault_weights(vaults: Seq<Vault>) -> int
    decreases vaults.len(),
{
    if vaults.len() == 0 { 0 } else { vault_weights(vaults.drop_last()) + vaults.last().weight }
}

proof fn lemma_vault_shares_below_ratio(share: int, vaults: Seq<Vault>, total_weight: u32)
    requires
        share >= 0,
        total_weight > 0,
    ensures
        0 <= vault_shares_sum(share, vaults, total_weight) <= ratio(share, vault_weights(vaults), total_weight as int),
    decreases vaults.len(),
{
    if vaults.len() > 0 {
        lemma_vault_shares_below_ratio(share, vaults.drop_last(), total_weight);
        let w0 = vault_weights(vaults.drop_last());
        let w = vaults.last().weight as int;
        lemma_vault_weights_nonneg(vaults.drop_last());
        assert(share * w0 >= 0 && share * w >= 0) by (nonlinear_arith)
            requires share >= 0, w0 >= 0, w >= 0;
        crate::math::lemma_floor_sum_le(share * w0, share * w, 0, total_weight as int);
        assert(share * w0 + share * w == share * (w0 + w)) by (nonlinear_arith);
        vstd::arithmetic::div_mod::lemma_div_pos_is_pos(share * w, total_weight as int);
    }
}

proof fn lemma_vault_weights_nonneg(vaults: Seq<Vault>)
    ensures
        vault_weights(vaults) >= 0,
    decreases vaults.len(),
{
    if vaults.len() > 0 {
        lemma_vault_weights_nonneg(vaults.drop_last());
    }
}

/// While the vaults' weights do not exceed the total weight, a mint never credits
/// the vaults more day-0 shares than their part of the mint buys.
pub proof fn lemma_vault_shares_bounded(share: int, vaults: Seq<Vault>, total_weight: u32)
    requires
        share >= 0,
        total_weight > 0,
        vault_weights(vaults) <= total_weight,
    ensures
        0 <= vault_shares_sum(share, vaults, total_weight) <= share,
{
    lemma_vault_shares_below_ratio(share, vaults, total_weight);
    lemma_vault_weights_nonneg(vaults);
    crate::math::lemma_ratio_le_value(share, vault_weights(vaults), total_weight as int);
}

/// The shares burnt by a withdrawal are worth at least the amount paid out.
pub proof fn lemma_withdraw_share_covers(p: StatePool, amount: int)
    requires
        amount >= 0,
        p.total_share > 0,
        p.total_balance > 0,
    ensures
        p.balance_of(withdraw_share_of(p, amount)) >= amount,
{
    crate::math::lemma_share_rounded_up_covers(amount, p.total_share as int, p.total_balance as int);
}


/// The shares burnt by a withdrawal are the fewest that cover the amount: any
/// smaller number of shares is worth less than the amount paid out.
pub proof fn lemma_withdraw_share_least(p: StatePool, amount: int, x: int)
    requires
        amount >= 0,
        p.total_share > 0,
        p.total_balance > 0,
        0 <= x < withdraw_share_of(p, amount),
    ensures
        p.balance_of(x) < amount,
{
    let sh = p.share_of(amount);
    let s = p.total_share as int;
    let b = p.total_balance as int;
    if x < sh {
        // x + 1 <= floor(amount * s / b), so x * b < amount * s
        vstd::arithmetic::div_mod::lemma_fundamental_div_mod(amount * s, b);
        vstd::arithmetic::div_mod::lemma_mod_bound(amount * s, b);
        assert(x * b < amount * s) by (nonlinear_arith)
            requires
                x + 1 <= sh,
                amount * s == b * sh + (amount * s) % b,
                (amount * s) % b >= 0,
                b > 0;
        vstd::arithmetic::div_mod::lemma_fundamental_div_mod(x * b, s);
        vstd::arithmetic::div_mod::lemma_mod_bound(x * b, s);
        let q = (x * b) / s;
        assert(q < amount) by (nonlinear_arith)
            requires
                x * b == s * q + (x * b) % s,
                (x * b) % s >= 0,
                x * b < amount * s,
                s > 0;
    } else {
        // x == sh, and the shares were rounded up because sh fell short
        assert(x == sh);
        assert(p.balance_of(sh) < amount);
    }
}

/// Right after a stake, its shares are worth no more than the tokens staked, so
/// staking never dilutes the other stakers. (A pool that holds tokens but no shares
/// is left out: there the first staker's shares take those tokens too.)
pub proof fn lemma_stake_not_worth_more(p: StatePool, amount: int)
    requires
        amount >= 0,
        p.total_share > 0 || p.total_balance == 0,
        p.total_share + p.share_of(amount) <= u128::MAX,
        p.total_balance + amount <= u128::MAX,
    ensures
        crate::gov::state::pool_added(p, p.share_of(amount), amount).balance_of(p.share_of(amount)) <= amount,
{
    let sh = p.share_of(amount);
    let s = p.total_share as int;
    let b = p.total_balance as int;
    if s == 0 || b == 0 {
        if s + amount > 0 {
            crate::math::lemma_ratio_le_value(amount, b + amount, s + amount);
        }
    } else {
        crate::math::lemma_bought_shares_not_worth_more(amount, s, b);
    }
}



} // verus!
