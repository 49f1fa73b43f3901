//! Set-up, configuration and queries of the governance contract.

use vstd::prelude::*;
use crate::common::{addr_eq, validate_percentage};
use crate::error::{ContractError, RatioField};
use crate::gov::reconcile::{reconcile_balance, reconcile_fits, reconciled};
use crate::gov::stake::{calc_mintable, mintable_at, validate_minted};
use crate::gov::state::{Account, AccountView, BalancePool, Config, State, StateView, Vault};
use crate::math::{mul_dec, multiply_ratio, ratio, spec_mul_dec, Decimal, DECIMAL_FRACTIONAL};

verus! {

/// About one day of blocks at seven seconds each.
pub const MINIMUM_EFFECTIVE_DELAY: u64 = 12342u64;

/// Refuses an effective delay shorter than [`MINIMUM_EFFECTIVE_DELAY`].
pub fn validate_effective_delay(value: u64) -> (r: Result<(), ContractError>)
    ensures
        r == if value < MINIMUM_EFFECTIVE_DELAY {
            Err::<(), ContractError>(ContractError::EffectiveDelayTooShort)
        } else {
            Ok(())
        },
{
    if value < MINIMUM_EFFECTIVE_DELAY {
        Err(ContractError::EffectiveDelayTooShort)
    } else {
        Ok(())
    }
}

/// Only the SPEC token contract may deliver tokens with a hook message.
pub fn authorize_spec_token(config: &Config, sender: &Vec<u8>) -> (r: Result<(), ContractError>)
    ensures
        r == if config.spec_token@ == sender@ { Ok::<(), ContractError>(()) } else { Err(ContractError::Unauthorized) },
{
    if addr_eq(&config.spec_token, sender) {
        Ok(())
    } else {
        Err(ContractError::Unauthorized)
    }
}

/// The first check a new configuration fails, if any.
pub open spec fn config_error(c: Config) -> Option<ContractError> {
    if c.quorum.atomics > DECIMAL_FRACTIONAL {
        Some(ContractError::PercentageOutOfRange(RatioField::Quorum))
    } else if c.threshold.atomics > DECIMAL_FRACTIONAL {
        Some(ContractError::PercentageOutOfRange(RatioField::Threshold))
    } else if c.warchest_ratio.atomics > DECIMAL_FRACTIONAL {
        Some(ContractError::PercentageOutOfRange(RatioField::WarchestRatio))
    } else if c.burnvault_ratio.atomics > DECIMAL_FRACTIONAL {
        Some(ContractError::PercentageOutOfRange(RatioField::BurnvaultRatio))
    } else if c.effective_delay < MINIMUM_EFFECTIVE_DELAY {
        Some(ContractError::EffectiveDelayTooShort)
    } else if c.mint_end < c.mint_start {
        Some(ContractError::InvalidMintParameters)
    } else {
        None
    }
}

/// Checks a new configuration and builds the initial state of a contract at
/// `contract_addr`, set up at `height`: no polls, no stakes, and the last mint at
/// `height` unless minting is off (mint end 0).
pub fn instantiate(config: &Config, contract_addr: Vec<u8>, height: u64) -> (r: Result<State, ContractError>)
    ensures
        match config_error(*config) {
            Some(e) => r is Err && r->Err_0 == e,
            None => r matches Ok(s) && s@ == (StateView {
                contract_addr: contract_addr@,
                poll_count: 0,
                poll_deposit: 0,
                last_mint: if config.mint_end == 0 { 0 } else { height },
                total_weight: 0,
                prev_balance: 0,
                prev_aust_balance: 0,
                vault_balances: 0,
                pools: Seq::empty(),
                total_share: 0,
                total_balance: 0,
                aust_index: Decimal { atomics: 0 },
            }),
        },
{
    validate_percentage(config.quorum, RatioField::Quorum)?;
    validate_percentage(config.threshold, RatioField::Threshold)?;
    validate_percentage(config.warchest_ratio, RatioField::WarchestRatio)?;
    validate_percentage(config.burnvault_ratio, RatioField::BurnvaultRatio)?;
    validate_effective_delay(config.effective_delay)?;
    if config.mint_end < config.mint_start {
        return Err(ContractError::InvalidMintParameters);
    }
    Ok(State {
        contract_addr,
        poll_count: 0,
        total_share: 0,
        poll_deposit: 0,
        last_mint: if config.mint_end == 0 { 0 } else { height },
        total_weight: 0,
        prev_balance: 0,
        prev_aust_balance: 0,
        total_balance: 0,
        aust_index: Decimal::zero(),
        vault_balances: 0,
        pools: Vec::new(),
    })
}

/// Requested changes to the configuration; `None` keeps a field.
pub struct ConfigUpdate {
    pub owner: Option<Vec<u8>>,
    pub spec_token: Option<Vec<u8>>,
    pub quorum: Option<Decimal>,
    pub threshold: Option<Decimal>,
    pub voting_period: Option<u64>,
    pub effective_delay: Option<u64>,
    pub expiration_period: Option<u64>,
    pub proposal_deposit: Option<u128>,
    pub warchest_address: Option<Vec<u8>>,
    pub burnvault_address: Option<Vec<u8>>,
    pub burnvault_ratio: Option<Decimal>,
}

pub open spec fn opt_addr(a: Option<Vec<u8>>) -> Option<Seq<u8>> {
    match a {
        Some(v) => Some(v@),
        None => None,
    }
}

/// The first check an update fails, if any, in the order the contract checks them.
pub open spec fn update_config_error(c: Config, s: StateView, sender: Seq<u8>, height: u64, u: ConfigUpdate) -> Option<ContractError> {
    let not_minted = s.last_mint < c.mint_end && s.last_mint != height;
    if c.owner@ != sender {
        Some(ContractError::Unauthorized)
    } else if u.owner is Some && c.owner@ == s.contract_addr {
        Some(ContractError::CannotUpdateOwner)
    } else if u.spec_token is Some && c.spec_token@.len() != 0 {
        Some(ContractError::AlreadyAssigned)
    } else if u.quorum matches Some(q) && q.atomics > DECIMAL_FRACTIONAL {
        Some(ContractError::PercentageOutOfRange(RatioField::Quorum))
    } else if u.threshold matches Some(t) && t.atomics > DECIMAL_FRACTIONAL {
        Some(ContractError::PercentageOutOfRange(RatioField::Threshold))
    } else if u.effective_delay matches Some(d) && d < MINIMUM_EFFECTIVE_DELAY {
        Some(ContractError::EffectiveDelayTooShort)
    } else if u.warchest_address is Some && c.warchest_address@.len() != 0 {
        Some(ContractError::AlreadyAssigned)
    } else if u.warchest_address is Some && not_minted {
        Some(ContractError::MintRequired)
    } else if u.burnvault_address is Some && c.burnvault_address@.len() != 0 {
        Some(ContractError::AlreadyAssigned)
    } else if u.burnvault_address is Some && not_minted {
        Some(ContractError::MintRequired)
    } else if u.burnvault_ratio matches Some(b) && b.atomics > DECIMAL_FRACTIONAL {
        Some(ContractError::PercentageOutOfRange(RatioField::BurnvaultRatio))
    } else if u.burnvault_ratio is Some && (match opt_addr(u.burnvault_address) { Some(a) => a, None => c.burnvault_address@ }).len() == 0 {
        Some(ContractError::BurnvaultAddressRequired)
    } else {
        None
    }
}

#[verifier::rlimit(60)]
/// Applies a configuration update sent by `sender` at `height`. Only the owner may
/// update; the owner of a contract that owns itself cannot change; the SPEC token,
/// war chest and burn vault addresses can be set once; ratios stay within 0 to 1.
pub fn update_config(config: &mut Config, state: &State, sender: &Vec<u8>, height: u64, update: ConfigUpdate) -> (r: Result<(), ContractError>)
    ensures
        ({
            let c = *old(config);
            let u = update;
            match update_config_error(c, state@, sender@, height, u) {
                Some(e) => r == Err::<(), ContractError>(e),
                None => {
                    &&& r is Ok
                    &&& final(config).owner@ == (match opt_addr(u.owner) { Some(a) => a, None => c.owner@ })
                    &&& final(config).spec_token@ == (match opt_addr(u.spec_token) { Some(a) => a, None => c.spec_token@ })
                    &&& final(config).quorum == (match u.quorum { Some(q) => q, None => c.quorum })
                    &&& final(config).threshold == (match u.threshold { Some(t) => t, None => c.threshold })
                    &&& final(config).voting_period == (match u.voting_period { Some(v) => v, None => c.voting_period })
                    &&& final(config).effective_delay == (match u.effective_delay { Some(v) => v, None => c.effective_delay })
                    &&& final(config).expiration_period == (match u.expiration_period { Some(v) => v, None => c.expiration_period })
                    &&& final(config).proposal_deposit == (match u.proposal_deposit { Some(v) => v, None => c.proposal_deposit })
                    &&& final(config).warchest_address@ == (match opt_addr(u.warchest_address) { Some(a) => a, None => c.warchest_address@ })
                    &&& final(config).burnvault_address@ == (match opt_addr(u.burnvault_address) { Some(a) => a, None => c.burnvault_address@ })
                    &&& final(config).burnvault_ratio == (match u.burnvault_ratio { Some(b) => b, None => c.burnvault_ratio })
                    &&& final(config).mint_per_block == c.mint_per_block
                    &&& final(config).mint_start == c.mint_start
                    &&& final(config).mint_end == c.mint_end
                    &&& final(config).warchest_ratio == c.warchest_ratio
                    &&& final(config).aust_token@ == c.aust_token@
                }
            }
        }),
        r is Err ==> *final(config) == *old(config),
{
    if !addr_eq(&config.owner, sender) {
        return Err(ContractError::Unauthorized);
    }
    if update.owner.is_some() && addr_eq(&config.owner, &state.contract_addr) {
        return Err(ContractError::CannotUpdateOwner);
    }
    if update.spec_token.is_some() && config.spec_token.len() != 0 {
        return Err(ContractError::AlreadyAssigned);
    }
    if let Some(quorum) = update.quorum {
        validate_percentage(quorum, RatioField::Quorum)?;
    }
    if let Some(threshold) = update.threshold {
        validate_percentage(threshold, RatioField::Threshold)?;
    }
    if let Some(effective_delay) = update.effective_delay {
        validate_effective_delay(effective_delay)?;
    }
    if update.warchest_address.is_some() {
        if config.warchest_address.len() != 0 {
            return Err(ContractError::AlreadyAssigned);
        }
        validate_minted(state, config, height)?;
    }
    if update.burnvault_address.is_some() {
        if config.burnvault_address.len() != 0 {
            return Err(ContractError::AlreadyAssigned);
        }
        validate_minted(state, config, height)?;
    }
    if let Some(burnvault_ratio) = update.burnvault_ratio {
        validate_percentage(burnvault_ratio, RatioField::BurnvaultRatio)?;
        let has_address = match &update.burnvault_address {
            Some(a) => a.len() != 0,
            None => config.burnvault_address.len() != 0,
        };
        if !has_address {
            return Err(ContractError::BurnvaultAddressRequired);
        }
    }
    if let Some(owner) = update.owner {
        config.owner = owner;
    }
    if let Some(spec_token) = update.spec_token {
        config.spec_token = spec_token;
    }
    if let Some(quorum) = update.quorum {
        config.quorum = quorum;
    }
    if let Some(threshold) = update.threshold {
        config.threshold = threshold;
    }
    if let Some(voting_period) = update.voting_period {
        config.voting_period = voting_period;
    }
    if let Some(effective_delay) = update.effective_delay {
        config.effective_delay = effective_delay;
    }
    if let Some(expiration_period) = update.expiration_period {
        config.expiration_period = expiration_period;
    }
    if let Some(proposal_deposit) = update.proposal_deposit {
        config.proposal_deposit = proposal_deposit;
    }
    if let Some(warchest_address) = update.warchest_address {
        config.warchest_address = warchest_address;
    }
    if let Some(burnvault_address) = update.burnvault_address {
        config.burnvault_address = burnvault_address;
    }
    if let Some(burnvault_ratio) = update.burnvault_ratio {
        config.burnvault_ratio = burnvault_ratio;
    }
    Ok(())
}

/// SPEC held for stakers, counting the part of the pending mint that goes to
/// the burn vault and the war chest.
pub open spec fn total_staked(s: StateView, c: Config, token_balance: u128, height: u64) -> int {
    let m = mintable_at(s, c, height);
    let to_burnvault = spec_mul_dec(m, c.burnvault_ratio);
    let to_warchest = spec_mul_dec(m - to_burnvault, c.warchest_ratio);
    (token_balance - s.poll_deposit) + to_burnvault + to_warchest
}

/// `query_state` neither overflows nor divides by zero.
pub open spec fn query_state_fits(s: StateView, c: Config, token_balance: u128, height: u64) -> bool {
    token_balance >= s.poll_deposit ==> {
        let s1 = reconciled(s, (token_balance - s.poll_deposit) as u128);
        let m = mintable_at(s1, c, height);
        &&& reconcile_fits(s, (token_balance - s.poll_deposit) as u128)
        &&& m <= u128::MAX
        &&& spec_mul_dec(m, c.burnvault_ratio) <= u128::MAX
        &&& spec_mul_dec(m, c.burnvault_ratio) <= m ==> {
            &&& spec_mul_dec(m - spec_mul_dec(m, c.burnvault_ratio), c.warchest_ratio) <= u128::MAX
            &&& total_staked(s1, c, token_balance, height) <= u128::MAX
        }
    }
}

/// The SPEC counted as staked, read without storing anything: the pools reconciled
/// with the contract's SPEC balance, with the burn vault's and war chest's parts of
/// the pending mint.
pub fn query_state(state: &State, config: &Config, token_balance: u128, height: u64) -> (r: Result<u128, ContractError>)
    requires
        query_state_fits(state@, *config, token_balance, height),
    ensures
        ({
            let s = state@;
            if token_balance < s.poll_deposit {
                r == Err::<u128, ContractError>(ContractError::Overflow)
            } else {
                let s1 = reconciled(s, (token_balance - s.poll_deposit) as u128);
                let m = mintable_at(s1, *config, height);
                if spec_mul_dec(m, config.burnvault_ratio) > m {
                    r == Err::<u128, ContractError>(ContractError::Overflow)
                } else {
                    r matches Ok(x) && x as int == total_staked(s1, *config, token_balance, height)
                }
            }
        }),
{
    if token_balance < state.poll_deposit {
        return Err(ContractError::Overflow);
    }
    let balance = token_balance - state.poll_deposit;
    let mut st = state.copy();
    reconcile_balance(&mut st, balance)?;
    let mintable = calc_mintable(&st, config, height);
    let to_burnvault = mul_dec(mintable, config.burnvault_ratio);
    if to_burnvault > mintable {
        return Err(ContractError::Overflow);
    }
    let to_warchest = mul_dec(mintable - to_burnvault, config.warchest_ratio);
    Ok(balance + to_burnvault + to_warchest)
}

/// Moves a vault's day-0 stake out of the pool into its own balance: the account's
/// shares are burnt and the vault keeps the tokens they were worth.
pub fn migrate_vault(state: &mut State, account: &mut Account, vault: &mut Vault) -> (r: Result<(), ContractError>)
    requires
        old(state)@.balance_fits(0, old(account).share as int),
        ({
            let amount = old(state)@.pool0().balance_of(old(account).share as int);
            &&& old(state)@.deduct_share_fits(0, old(account).share as int, amount)
            &&& old(state).vault_balances + amount <= u128::MAX
        }),
    ensures
        ({
            let s = old(state)@;
            let a = old(account)@;
            let amount = s.pool0().balance_of(a.share as int);
            &&& r is Ok
            &&& final(account)@ == AccountView { share: 0, ..a }
            &&& final(state)@ == StateView {
                vault_balances: (s.vault_balances + amount) as u128,
                ..s.deduct_share(0, a.share as int, amount).unwrap()
            }
            &&& final(vault).weight == old(vault).weight
            &&& final(vault).balance == amount
        }),
{
    let amount = account.calc_balance(0, state)?;
    let share = account.share;
    account.deduct_share(0, share, None)?;
    state.deduct_share(0, share, amount)?;
    vault.balance = amount;
    state.vault_balances = state.vault_balances + amount;
    Ok(())
}

/// One line of a staker's balance report.
#[derive(Clone, Copy, Debug, PartialEq, Eq, Structural)]
pub struct BalancePoolInfo {
    pub days: u64,
    pub share: u128,
    pub balance: u128,
    pub unlock: u64,
}

/// Day-0 shares and balance of an address, with the war chest's or a vault's part
/// of the pending mint.
pub open spec fn day0_holding(s1: StateView, c: Config, share: u128, is_warchest: bool, vault: Option<Vault>, height: u64) -> Result<(int, int), ContractError> {
    let p0 = s1.pool0();
    let base_share = share as int;
    let base_balance = p0.balance_of(share as int);
    let m = mintable_at(s1, c, height);
    let tw = spec_mul_dec(m, c.warchest_ratio);
    if is_warchest {
        Ok((base_share + p0.share_of(tw), base_balance + tw))
    } else {
        match vault {
            None => Ok((base_share, base_balance)),
            Some(v) => if tw > m {
                Err(ContractError::Overflow)
            } else {
                let rest = m - tw;
                Ok((
                    base_share + ratio(p0.share_of(rest), v.weight as int, s1.total_weight as int),
                    base_balance + ratio(rest, v.weight as int, s1.total_weight as int),
                ))
            },
        }
    }
}

/// `query_balances` neither overflows nor divides by zero.
pub open spec fn query_balances_fits(s: StateView, c: Config, a: AccountView, is_warchest: bool, vault: Option<Vault>, token_balance: u128, height: u64) -> bool {
    token_balance >= s.poll_deposit ==> {
        let s1 = reconciled(s, (token_balance - s.poll_deposit) as u128);
        let p0 = s1.pool0();
        let m = mintable_at(s1, c, height);
        let tw = spec_mul_dec(m, c.warchest_ratio);
        &&& reconcile_fits(s, (token_balance - s.poll_deposit) as u128)
        &&& p0.balance_of(a.share as int) <= u128::MAX
        &&& (is_warchest || vault is Some) ==> m <= u128::MAX && tw <= u128::MAX
        &&& is_warchest ==> p0.share_of(tw) <= u128::MAX && a.share + p0.share_of(tw) <= u128::MAX
            && p0.balance_of(a.share as int) + tw <= u128::MAX
        &&& (!is_warchest && vault is Some && tw <= m) ==> {
            &&& s1.total_weight > 0
            &&& p0.share_of(m - tw) <= u128::MAX
            &&& ratio(p0.share_of(m - tw), vault.unwrap().weight as int, s1.total_weight as int) <= u128::MAX
            &&& ratio(m - tw, vault.unwrap().weight as int, s1.total_weight as int) <= u128::MAX
            &&& day0_holding(s1, c, a.share, is_warchest, vault, height) matches Ok((sh, b)) ==> sh <= u128::MAX && b <= u128::MAX
        }
        &&& forall|k: int| 0 <= k < a.pools.len() ==> s1.balance_fits(#[trigger] a.pools[k].days, a.pools[k].share as int)
    }
}

/// The balance report of one line per pool.
pub open spec fn pool_lines_match(lines: Seq<BalancePoolInfo>, s1: StateView, pools: Seq<BalancePool>) -> bool {
    &&& lines.len() == pools.len()
    &&& forall|k: int| 0 <= k < pools.len() ==> {
        &&& (#[trigger] lines[k]).days == pools[k].days
        &&& lines[k].share == pools[k].share
        &&& lines[k].unlock == pools[k].unlock
        &&& s1.calc_balance(pools[k].days, pools[k].share as int) == Ok::<int, ContractError>(lines[k].balance as int)
    }
}

/// The balance report of a staker: the votes still in progress and, per pool,
/// shares, balance and unlock time. `address` is the staker; `vault` its vault, if
/// it is one; `in_progress[i]` tells whether the poll of its `i`-th vote is still in
/// progress; `token_balance` is the contract's SPEC balance.
pub fn query_balances(
    state: &State,
    config: &Config,
    account: &Account,
    address: &Vec<u8>,
    vault: Option<Vault>,
    in_progress: &Vec<bool>,
    token_balance: u128,
    height: u64,
) -> (r: Result<Vec<BalancePoolInfo>, ContractError>)
    requires
        in_progress@.len() == account.locked_balance@.len(),
        query_balances_fits(state@, *config, account@, address@ == config.warchest_address@, vault, token_balance, height),
    ensures
        ({
            let s = state@;
            let a = account@;
            let is_warchest = address@ == config.warchest_address@;
            if token_balance < s.poll_deposit {
                r == Err::<Vec<BalancePoolInfo>, ContractError>(ContractError::Overflow)
            } else {
                let s1 = reconciled(s, (token_balance - s.poll_deposit) as u128);
                match day0_holding(s1, *config, a.share, is_warchest, vault, height) {
                    Err(e) => r == Err::<Vec<BalancePoolInfo>, ContractError>(e),
                    Ok((sh, b)) => match r {
                        Err(e) => e == ContractError::PoolNotFound && exists|k: int| 0 <= k < a.pools.len()
                            && s1.day_pool(#[trigger] a.pools[k].days) is None,
                        Ok(lines) => {
                            &&& lines@.len() == a.pools.len() + 1
                            &&& lines@[0] == BalancePoolInfo { days: 0, share: sh as u128, balance: b as u128, unlock: 0 }
                            &&& pool_lines_match(lines@.drop_first(), s1, a.pools)
                        },
                    },
                }
            }
        }),
{
    if token_balance < state.poll_deposit {
        return Err(ContractError::Overflow);
    }
    let mut st = state.copy();
    let mut acc = account.copy();
    crate::gov::stake::compute_locked_balance(&mut acc, in_progress);
    reconcile_balance(&mut st, token_balance - state.poll_deposit)?;
    let pool0 = st.get_pool(0)?;
    let mut balance = pool0.calc_balance(acc.share);
    let mut share = acc.share;
    if addr_eq(address, &config.warchest_address) {
        let mintable = calc_mintable(&st, config, height);
        let to_warchest = mul_dec(mintable, config.warchest_ratio);
        share = share + pool0.calc_share(to_warchest);
        balance = balance + to_warchest;
    } else if let Some(v) = vault {
        let mintable = calc_mintable(&st, config, height);
        let to_warchest = mul_dec(mintable, config.warchest_ratio);
        if to_warchest > mintable {
            return Err(ContractError::Overflow);
        }
        let rest = mintable - to_warchest;
        let vaults_share = pool0.calc_share(rest);
        share = share + multiply_ratio(vaults_share, v.weight as u128, st.total_weight as u128);
        balance = balance + multiply_ratio(rest, v.weight as u128, st.total_weight as u128);
    }
    let mut lines: Vec<BalancePoolInfo> = Vec::new();
    lines.push(BalancePoolInfo { days: 0, share, balance, unlock: 0 });
    let mut i: usize = 0;
    while i < acc.pools.len()
        invariant
            0 <= i <= acc.pools@.len(),
            lines@.len() == i + 1,
            acc.pools@ == account@.pools,
            acc@ == crate::gov::stake::with_open_votes(account@, in_progress@),
            day0_holding(st@, *config, account@.share, address@ == config.warchest_address@, vault, height)
                == Ok::<(int, int), ContractError>((share as int, balance as int)),
            token_balance >= state.poll_deposit,
            st@ == reconciled(state@, (token_balance - state.poll_deposit) as u128),
            lines@[0] == (BalancePoolInfo { days: 0, share, balance, unlock: 0 }),
            forall|k: int| 0 <= k < acc.pools@.len() ==> st@.balance_fits(#[trigger] acc.pools@[k].days, acc.pools@[k].share as int),
            pool_lines_match(lines@.drop_first(), st@, acc.pools@.take(i as int)),
        decreases acc.pools@.len() - i,
    {
        let p = acc.pools[i];
        assert(st@.balance_fits(acc.pools@[i as int].days, acc.pools@[i as int].share as int));
        let b = match st.calc_balance(p.days, p.share) {
            Ok(b) => b,
            Err(e) => {
                proof {
                    assert(account@.pools == acc.pools@);
                    assert(st@.day_pool(account@.pools[i as int].days) is None);
                }
                return Err(e);
            },
        };
        let ghost before = lines@;
        lines.push(BalancePoolInfo { days: p.days, share: p.share, balance: b, unlock: p.unlock });
        proof {
            assert(lines@.drop_first() =~= before.drop_first().push(BalancePoolInfo { days: p.days, share: p.share, balance: b, unlock: p.unlock }));
            assert(acc.pools@.take(i + 1) =~= acc.pools@.take(i as int).push(p));
        }
        i += 1;
    }
    proof {
        assert(acc.pools@.take(i as int) =~= acc.pools@);
    }
    Ok(lines)
}

} // verus!