//! Polls of the governance contract: creation, voting, tallying and execution.

use vstd::prelude::*;
use crate::error::ContractError;
use crate::gov::reconcile::{reconcile_balance, reconcile_fits, reconciled};
use crate::gov::state::{Account, AccountView, Config, State, StateView, VoteOption, VoterInfo};
use crate::math::{dec_ratio, mul_dec, multiply_ratio, ratio, spec_mul_dec, Decimal, DECIMAL_FRACTIONAL};

verus! {

pub const MIN_TITLE_LENGTH: usize = 4;
pub const MAX_TITLE_LENGTH: usize = 64;
pub const MIN_DESC_LENGTH: usize = 4;
pub const MAX_DESC_LENGTH: usize = 256;
pub const MIN_LINK_LENGTH: usize = 12;
pub const MAX_LINK_LENGTH: usize = 128;

/// Where a poll stands.
#[derive(Clone, Copy, Debug, PartialEq, Eq, Structural)]
pub enum PollStatus {
    InProgress,
    Passed,
    Rejected,
    Executed,
    Expired,
}

/// A message that a passed poll sends when executed.
pub struct PollExecuteMsg {
    pub contract: String,
    pub msg: String,
}

/// A governance poll.
pub struct Poll {
    pub id: u64,
    pub creator: Vec<u8>,
    pub status: PollStatus,
    pub yes_votes: u128,
    pub no_votes: u128,
    pub end_height: u64,
    pub title: String,
    pub description: String,
    pub link: Option<String>,
    pub execute_msgs: Vec<PollExecuteMsg>,
    pub deposit_amount: u128,
    pub total_balance_at_end_poll: Option<u128>,
}

/// Length in bytes of the UTF-8 encoding of a text.
pub open spec fn byte_len(s: Seq<char>) -> int {
    (vstd::utf8::encode_utf8(s).len() as usize) as int
}

/// Refuses a title outside of 4 to 64 bytes.
pub fn validate_title(title: &str) -> (r: Result<(), ContractError>)
    ensures
        r == if byte_len(title@) < MIN_TITLE_LENGTH {
            Err::<(), ContractError>(ContractError::TitleTooShort)
        } else if byte_len(title@) > MAX_TITLE_LENGTH {
            Err(ContractError::TitleTooLong)
        } else {
            Ok(())
        },
{
    if title.len() < MIN_TITLE_LENGTH {
        Err(ContractError::TitleTooShort)
    } else if title.len() > MAX_TITLE_LENGTH {
        Err(ContractError::TitleTooLong)
    } else {
        Ok(())
    }
}

/// Refuses a description outside of 4 to 256 bytes.
pub fn validate_description(description: &str) -> (r: Result<(), ContractError>)
    ensures
        r == if byte_len(description@) < MIN_DESC_LENGTH {
            Err::<(), ContractError>(ContractError::DescriptionTooShort)
        } else if byte_len(description@) > MAX_DESC_LENGTH {
            Err(ContractError::DescriptionTooLong)
        } else {
            Ok(())
        },
{
    if description.len() < MIN_DESC_LENGTH {
        Err(ContractError::DescriptionTooShort)
    } else if description.len() > MAX_DESC_LENGTH {
        Err(ContractError::DescriptionTooLong)
    } else {
        Ok(())
    }
}

/// Refuses a link outside of 12 to 128 bytes; no link is fine.
pub fn validate_link(link: &Option<String>) -> (r: Result<(), ContractError>)
    ensures
        r == match link {
            None => Ok::<(), ContractError>(()),
            Some(l) => if byte_len(l@) < MIN_LINK_LENGTH {
                Err(ContractError::LinkTooShort)
            } else if byte_len(l@) > MAX_LINK_LENGTH {
                Err(ContractError::LinkTooLong)
            } else {
                Ok(())
            },
        },
{
    match link {
        None => Ok(()),
        Some(l) => {
            let len = l.as_str().len();
            if len < MIN_LINK_LENGTH {
                Err(ContractError::LinkTooShort)
            } else if len > MAX_LINK_LENGTH {
                Err(ContractError::LinkTooLong)
            } else {
                Ok(())
            }
        },
    }
}

/// The first validation a new poll fails, if any.
pub open spec fn poll_start_error(config: Config, title: Seq<char>, description: Seq<char>, link: Option<Seq<char>>, deposit_amount: u128) -> Option<ContractError> {
    if byte_len(title) < MIN_TITLE_LENGTH {
        Some(ContractError::TitleTooShort)
    } else if byte_len(title) > MAX_TITLE_LENGTH {
        Some(ContractError::TitleTooLong)
    } else if byte_len(description) < MIN_DESC_LENGTH {
        Some(ContractError::DescriptionTooShort)
    } else if byte_len(description) > MAX_DESC_LENGTH {
        Some(ContractError::DescriptionTooLong)
    } else if link matches Some(l) && byte_len(l) < MIN_LINK_LENGTH {
        Some(ContractError::LinkTooShort)
    } else if link matches Some(l) && byte_len(l) > MAX_LINK_LENGTH {
        Some(ContractError::LinkTooLong)
    } else if deposit_amount < config.proposal_deposit {
        Some(ContractError::DepositTooLow)
    } else {
        None
    }
}

pub open spec fn link_view(link: Option<String>) -> Option<Seq<char>> {
    match link {
        Some(l) => Some(l@),
        None => None,
    }
}

/// Opens a poll with the deposit that came with it; the poll runs for the voting
/// period from `height`.
pub fn poll_start(
    state: &mut State,
    config: &Config,
    creator: Vec<u8>,
    deposit_amount: u128,
    title: String,
    description: String,
    link: Option<String>,
    execute_msgs: Vec<PollExecuteMsg>,
    height: u64,
) -> (r: Result<Poll, ContractError>)
    requires
        old(state).poll_count < u64::MAX,
        old(state).poll_deposit + deposit_amount <= u128::MAX,
        height + config.voting_period <= u64::MAX,
    ensures
        ({
            let s = old(state)@;
            match poll_start_error(*config, title@, description@, link_view(link), deposit_amount) {
                Some(e) => r == Err::<Poll, ContractError>(e) && final(state)@ == s,
                None => {
                    &&& final(state)@ == StateView {
                        poll_count: (s.poll_count + 1) as u64,
                        poll_deposit: (s.poll_deposit + deposit_amount) as u128,
                        ..s
                    }
                    &&& r matches Ok(p) && {
                        &&& p.id == s.poll_count + 1
                        &&& p.creator@ == creator@
                        &&& p.status == PollStatus::InProgress
                        &&& p.yes_votes == 0
                        &&& p.no_votes == 0
                        &&& p.end_height == height + config.voting_period
                        &&& p.title@ == title@
                        &&& p.description@ == description@
                        &&& link_view(p.link) == link_view(link)
                        &&& p.execute_msgs@ == execute_msgs@
                        &&& p.deposit_amount == deposit_amount
                        &&& p.total_balance_at_end_poll is None
                    }
                },
            }
        }),
{
    validate_title(title.as_str())?;
    validate_description(description.as_str())?;
    validate_link(&link)?;
    if deposit_amount < config.proposal_deposit {
        return Err(ContractError::DepositTooLow);
    }
    let poll_id = state.poll_count + 1;
    state.poll_count = state.poll_count + 1;
    state.poll_deposit = state.poll_deposit + deposit_amount;
    Ok(Poll {
        id: poll_id,
        creator,
        status: PollStatus::InProgress,
        yes_votes: 0,
        no_votes: 0,
        end_height: height + config.voting_period,
        title,
        description,
        link,
        execute_msgs,
        deposit_amount,
        total_balance_at_end_poll: None,
    })
}

/// Content fields of a poll that voting and tallying leave alone.
pub open spec fn same_content(a: Poll, b: Poll) -> bool {
    &&& a.id == b.id
    &&& a.creator@ == b.creator@
    &&& a.title@ == b.title@
    &&& a.description@ == b.description@
    &&& link_view(a.link) == link_view(b.link)
    &&& a.execute_msgs@ == b.execute_msgs@
    &&& a.deposit_amount == b.deposit_amount
}

/// A vote neither overflows nor divides by zero.
pub open spec fn poll_vote_fits(s: StateView, a: AccountView, poll: Poll, token_balance: u128, amount: u128) -> bool {
    token_balance >= s.poll_deposit ==> {
        let s1 = reconciled(s, (token_balance - s.poll_deposit) as u128);
        &&& reconcile_fits(s, (token_balance - s.poll_deposit) as u128)
        &&& a.total_balance_fits(s1)
        &&& poll.yes_votes + amount <= u128::MAX
        &&& poll.no_votes + amount <= u128::MAX
    }
}

/// Casts a vote of `amount` on poll `poll_id` (stored as `poll`) at `height`: the
/// voter's staked balance, valued at the contract's SPEC balance `token_balance`,
/// must cover the amount, which stays locked in the account until the poll ends.
pub fn poll_vote(
    state: &mut State,
    account: &mut Account,
    poll: &mut Poll,
    poll_id: u64,
    already_voted: bool,
    vote: VoteOption,
    amount: u128,
    token_balance: u128,
    height: u64,
) -> (r: Result<(), ContractError>)
    requires
        poll_vote_fits(old(state)@, old(account)@, *old(poll), token_balance, amount),
    ensures
        same_content(*final(poll), *old(poll)),
        final(poll).status == old(poll).status,
        final(poll).end_height == old(poll).end_height,
        final(poll).total_balance_at_end_poll == old(poll).total_balance_at_end_poll,
        ({
            let s = old(state)@;
            let a = old(account)@;
            let p = *old(poll);
            if poll_id == 0 || s.poll_count < poll_id {
                r == Err::<(), ContractError>(ContractError::PollNotFound)
            } else if p.status != PollStatus::InProgress || height > p.end_height {
                r == Err::<(), ContractError>(ContractError::PollNotInProgress)
            } else if already_voted {
                r == Err::<(), ContractError>(ContractError::AlreadyVoted)
            } else if token_balance < s.poll_deposit {
                r == Err::<(), ContractError>(ContractError::Overflow)
            } else {
                let s1 = reconciled(s, (token_balance - s.poll_deposit) as u128);
                match a.total_balance(s1) {
                    Err(e) => r == Err::<(), ContractError>(e),
                    Ok(b) => if b < amount {
                        r == Err::<(), ContractError>(ContractError::InsufficientStake)
                    } else {
                        &&& r is Ok
                        &&& final(state)@ == s1
                        &&& final(account)@ == AccountView {
                            locked_balance: a.locked_balance.push((poll_id, VoterInfo { vote, balance: amount })),
                            ..a
                        }
                        &&& final(poll).yes_votes == if vote == VoteOption::Yes { p.yes_votes + amount } else { p.yes_votes as int }
                        &&& final(poll).no_votes == if vote == VoteOption::Yes { p.no_votes as int } else { p.no_votes + amount }
                    },
                }
            }
        }),
        r is Err ==> {
            &&& final(state)@ == old(state)@
            &&& final(account)@ == old(account)@
            &&& final(poll).yes_votes == old(poll).yes_votes
            &&& final(poll).no_votes == old(poll).no_votes
        },
{
    if poll_id == 0 || state.poll_count < poll_id {
        return Err(ContractError::PollNotFound);
    }
    if poll.status != PollStatus::InProgress || height > poll.end_height {
        return Err(ContractError::PollNotInProgress);
    }
    if already_voted {
        return Err(ContractError::AlreadyVoted);
    }
    if token_balance < state.poll_deposit {
        return Err(ContractError::Overflow);
    }
    let mut s = state.copy();
    reconcile_balance(&mut s, token_balance - state.poll_deposit)?;
    let balance = account.calc_total_balance(&s)?;
    if balance < amount {
        return Err(ContractError::InsufficientStake);
    }
    *state = s;
    match vote {
        VoteOption::Yes => {
            poll.yes_votes = poll.yes_votes + amount;
        },
        VoteOption::No => {
            poll.no_votes = poll.no_votes + amount;
        },
    }
    account.locked_balance.push((poll_id, VoterInfo { vote, balance: amount }));
    Ok(())
}

/// How a poll ended.
#[derive(Clone, Copy, Debug, PartialEq, Eq, Structural)]
pub enum PollResult {
    Passed,
    QuorumNotReached,
    ThresholdNotReached,
}

/// What ending a poll decides: its result and the part of the deposit returned to its creator.
pub struct PollEndOutcome {
    pub result: PollResult,
    pub return_amount: u128,
}

/// The SPEC counted as staked when a poll ends: none while nobody holds day-0
/// shares, else the contract's balance less poll deposits.
pub open spec fn poll_staked(s: StateView, token_balance: u128) -> int {
    if s.total_share == 0 { 0 } else { token_balance - s.poll_deposit }
}

/// The turnout: all votes over the staked SPEC.
pub open spec fn poll_quorum(yes: int, no: int, staked: int) -> int {
    if staked == 0 { 0 } else { dec_ratio(yes + no, staked) }
}

/// A poll may end before its end height only when either side alone already
/// holds the threshold of the staked SPEC.
pub open spec fn ends_early_blocked(c: Config, p: Poll, staked: int, height: u64) -> bool {
    &&& p.end_height > height
    &&& staked != 0
    &&& dec_ratio(p.yes_votes as int, staked) < c.threshold.atomics
    &&& dec_ratio(p.no_votes as int, staked) < c.threshold.atomics
}

/// The result of a poll.
pub open spec fn poll_result(c: Config, yes: int, no: int, staked: int) -> PollResult {
    let q = poll_quorum(yes, no, staked);
    if q == 0 || q < c.quorum.atomics {
        PollResult::QuorumNotReached
    } else if dec_ratio(yes, yes + no) < c.threshold.atomics {
        PollResult::ThresholdNotReached
    } else {
        PollResult::Passed
    }
}

/// The part of the deposit returned: all of it when passed or when the poll has
/// no messages to execute; else in proportion to the yes votes, measured against
/// the quorum when it was missed.
pub open spec fn poll_return_amount(c: Config, p: Poll, staked: int) -> int {
    let yes = p.yes_votes as int;
    let no = p.no_votes as int;
    let q = poll_quorum(yes, no, staked);
    if p.deposit_amount == 0 {
        0
    } else if poll_result(c, yes, no, staked) == PollResult::Passed || p.execute_msgs@.len() == 0 {
        p.deposit_amount as int
    } else if q == 0 {
        0
    } else if q < c.quorum.atomics {
        ratio(p.deposit_amount as int, yes, spec_mul_dec(staked, c.quorum))
    } else {
        ratio(p.deposit_amount as int, yes, yes + no)
    }
}

/// Ending a poll neither overflows nor divides by zero.
pub open spec fn poll_end_fits(s: StateView, c: Config, p: Poll, token_balance: u128) -> bool {
    let staked = poll_staked(s, token_balance);
    let yes = p.yes_votes as int;
    let no = p.no_votes as int;
    &&& yes + no <= u128::MAX
    &&& (s.total_share == 0 || token_balance >= s.poll_deposit) ==> {
        &&& staked != 0 ==> dec_ratio(yes + no, staked) <= u128::MAX
        &&& spec_mul_dec(staked, c.quorum) <= u128::MAX
        &&& (p.deposit_amount != 0 && p.execute_msgs@.len() != 0 && poll_quorum(yes, no, staked) != 0
            && poll_quorum(yes, no, staked) < c.quorum.atomics) ==> {
            &&& spec_mul_dec(staked, c.quorum) > 0
            &&& ratio(p.deposit_amount as int, yes, spec_mul_dec(staked, c.quorum)) <= u128::MAX
        }
    }
}

/// Ends a poll at `height`, given the contract's SPEC balance: tallies the votes
/// against quorum and threshold, settles how much of the deposit goes back, and
/// releases the deposit from the state.
pub fn poll_end(state: &mut State, config: &Config, poll: &mut Poll, token_balance: u128, height: u64) -> (r: Result<PollEndOutcome, ContractError>)
    requires
        poll_end_fits(old(state)@, *config, *old(poll), token_balance),
    ensures
        same_content(*final(poll), *old(poll)),
        final(poll).yes_votes == old(poll).yes_votes,
        final(poll).no_votes == old(poll).no_votes,
        ({
            let s = old(state)@;
            let p = *old(poll);
            let staked = poll_staked(s, token_balance);
            let result = poll_result(*config, p.yes_votes as int, p.no_votes as int, staked);
            if p.status != PollStatus::InProgress {
                r == Err::<PollEndOutcome, ContractError>(ContractError::PollNotInProgress) && final(state)@ == s
            } else if s.total_share != 0 && token_balance < s.poll_deposit {
                r == Err::<PollEndOutcome, ContractError>(ContractError::Overflow) && final(state)@ == s
            } else if ends_early_blocked(*config, p, staked, height) {
                r == Err::<PollEndOutcome, ContractError>(ContractError::VotingPeriodNotExpired) && final(state)@ == s
            } else if p.deposit_amount != 0 && result != PollResult::Passed && s.last_mint < config.mint_end && s.last_mint != height {
                r == Err::<PollEndOutcome, ContractError>(ContractError::MintRequired) && final(state)@ == s
            } else if s.poll_deposit < p.deposit_amount {
                r == Err::<PollEndOutcome, ContractError>(ContractError::Overflow) && final(state)@ == s
            } else {
                &&& r matches Ok(o) && o.result == result && o.return_amount == poll_return_amount(*config, p, staked)
                &&& final(state)@ == StateView { poll_deposit: (s.poll_deposit - p.deposit_amount) as u128, ..s }
                &&& final(poll).status == if result == PollResult::Passed { PollStatus::Passed } else { PollStatus::Rejected }
                &&& final(poll).total_balance_at_end_poll == Some(staked as u128)
                &&& final(poll).end_height == if height < p.end_height { height } else { p.end_height }
            }
        }),
        r is Err ==> *final(poll) == *old(poll),
{
    if poll.status != PollStatus::InProgress {
        return Err(ContractError::PollNotInProgress);
    }
    let no = poll.no_votes;
    let yes = poll.yes_votes;
    let all_votes = yes + no;

    let staked: u128 = if state.total_share == 0 {
        0
    } else {
        if token_balance < state.poll_deposit {
            return Err(ContractError::Overflow);
        }
        token_balance - state.poll_deposit
    };
    let quorum = if staked == 0 {
        Decimal::zero()
    } else {
        Decimal::from_ratio(all_votes, staked)
    };
    if poll.end_height > height && staked != 0 {
        let yes_ratio = ratio_of(yes, all_votes, staked);
        if yes_ratio.lt(&config.threshold) {
            let no_ratio = ratio_of(no, all_votes, staked);
            if no_ratio.lt(&config.threshold) {
                return Err(ContractError::VotingPeriodNotExpired);
            }
        }
    }

    proof {
        if staked != 0 && quorum.atomics != 0 {
            crate::math::lemma_ratio_zero(0, DECIMAL_FRACTIONAL as int, staked as int);
            lemma_dec_ratio_self(all_votes as int);
        }
    }
    let result = if quorum.is_zero() || quorum.lt(&config.quorum) {
        PollResult::QuorumNotReached
    } else if ratio_of(yes, all_votes, all_votes).lt(&config.threshold) {
        PollResult::ThresholdNotReached
    } else {
        PollResult::Passed
    };
    let passed = result == PollResult::Passed;

    let mut return_amount: u128 = 0;
    if poll.deposit_amount != 0 {
        if !passed {
            crate::gov::stake::validate_minted(state, config, height)?;
        }
        return_amount = if passed || poll.execute_msgs.len() == 0 {
            poll.deposit_amount
        } else if quorum.is_zero() {
            0
        } else if quorum.lt(&config.quorum) {
            let denominator = mul_dec(staked, config.quorum);
            multiply_ratio(poll.deposit_amount, yes, denominator)
        } else {
            proof {
                crate::math::lemma_ratio_le_value(poll.deposit_amount as int, yes as int, all_votes as int);
            }
            multiply_ratio(poll.deposit_amount, yes, all_votes)
        };
    }

    if state.poll_deposit < poll.deposit_amount {
        return Err(ContractError::Overflow);
    }
    state.poll_deposit = state.poll_deposit - poll.deposit_amount;
    poll.status = if passed {
        PollStatus::Passed
    } else {
        PollStatus::Rejected
    };
    poll.total_balance_at_end_poll = Some(staked);
    if height < poll.end_height {
        poll.end_height = height;
    }
    Ok(PollEndOutcome { result, return_amount })
}

/// `part / whole` as a decimal where `part <= all` and `all / whole` fits.
fn ratio_of(part: u128, all: u128, whole: u128) -> (r: Decimal)
    requires
        whole > 0,
        part <= all,
        dec_ratio(all as int, whole as int) <= u128::MAX,
    ensures
        r.atomics as int == dec_ratio(part as int, whole as int),
{
    proof {
        lemma_dec_ratio_monotonic(part as int, all as int, whole as int);
    }
    Decimal::from_ratio(part, whole)
}

/// A smaller numerator gives a smaller ratio.
pub proof fn lemma_dec_ratio_monotonic(a: int, b: int, d: int)
    requires
        0 <= a <= b,
        d > 0,
    ensures
        dec_ratio(a, d) <= dec_ratio(b, d),
{
    assert(a * (DECIMAL_FRACTIONAL as int) <= b * (DECIMAL_FRACTIONAL as int)) by (nonlinear_arith)
        requires
            0 <= a <= b,
    ;
    vstd::arithmetic::div_mod::lemma_div_is_ordered(a * (DECIMAL_FRACTIONAL as int), b * (DECIMAL_FRACTIONAL as int), d);
}

/// A whole over itself is one.
pub proof fn lemma_dec_ratio_self(a: int)
    requires
        a > 0,
    ensures
        dec_ratio(a, a) == DECIMAL_FRACTIONAL,
{
    assert(a * (DECIMAL_FRACTIONAL as int) / a == DECIMAL_FRACTIONAL as int) by (nonlinear_arith)
        requires
            a > 0,
    ;
}

/// Marks a passed poll executed once its effective delay is over; a text poll
/// without messages cannot execute.
pub fn poll_execute(poll: &mut Poll, config: &Config, height: u64) -> (r: Result<(), ContractError>)
    requires
        old(poll).end_height + config.effective_delay <= u64::MAX,
    ensures
        same_content(*final(poll), *old(poll)),
        final(poll).yes_votes == old(poll).yes_votes,
        final(poll).no_votes == old(poll).no_votes,
        final(poll).end_height == old(poll).end_height,
        r == if old(poll).status != PollStatus::Passed {
            Err::<(), ContractError>(ContractError::PollNotPassed)
        } else if old(poll).end_height + config.effective_delay > height {
            Err(ContractError::EffectiveDelayNotExpired)
        } else if old(poll).execute_msgs@.len() == 0 {
            Err(ContractError::NoExecuteData)
        } else {
            Ok(())
        },
        final(poll).status == if r is Ok { PollStatus::Executed } else { old(poll).status },
{
    if poll.status != PollStatus::Passed {
        return Err(ContractError::PollNotPassed);
    }
    if poll.end_height + config.effective_delay > height {
        return Err(ContractError::EffectiveDelayNotExpired);
    }
    if poll.execute_msgs.len() == 0 {
        return Err(ContractError::NoExecuteData);
    }
    poll.status = PollStatus::Executed;
    Ok(())
}

/// Marks a passed poll that was never executed expired once its expiration period is over.
pub fn poll_expire(poll: &mut Poll, config: &Config, height: u64) -> (r: Result<(), ContractError>)
    requires
        old(poll).end_height + config.expiration_period <= u64::MAX,
    ensures
        same_content(*final(poll), *old(poll)),
        final(poll).yes_votes == old(poll).yes_votes,
        final(poll).no_votes == old(poll).no_votes,
        final(poll).end_height == old(poll).end_height,
        r == if old(poll).status != PollStatus::Passed {
            Err::<(), ContractError>(ContractError::PollNotPassed)
        } else if old(poll).execute_msgs@.len() == 0 {
            Err(ContractError::TextProposalCannotExpire)
        } else if old(poll).end_height + config.expiration_period > height {
            Err(ContractError::ExpirationNotReached)
        } else {
            Ok(())
        },
        final(poll).status == if r is Ok { PollStatus::Expired } else { old(poll).status },
{
    if poll.status != PollStatus::Passed {
        return Err(ContractError::PollNotPassed);
    }
    if poll.execute_msgs.len() == 0 {
        return Err(ContractError::TextProposalCannotExpire);
    }
    if poll.end_height + config.expiration_period > height {
        return Err(ContractError::ExpirationNotReached);
    }
    poll.status = PollStatus::Expired;
    Ok(())
}


/// A poll without messages to execute always gives its creator the whole deposit
/// back, whatever the votes.
pub proof fn lemma_no_messages_full_refund(c: Config, p: Poll, staked: int)
    requires
        p.execute_msgs@.len() == 0,
    ensures
        poll_return_amount(c, p, staked) == p.deposit_amount,
{
}

/// Once the turnout (all votes over the staked SPEC) reaches the quorum, a poll
/// passes exactly when the yes votes' share of the votes cast reaches the
/// threshold; the staked SPEC plays no further part.
pub proof fn lemma_poll_passes_by_votes_cast(c: Config, yes: int, no: int, staked: int)
    requires
        yes >= 0,
        no >= 0,
        staked > 0,
        (yes + no) * 1_000_000_000_000_000_000int / staked > 0,
        (yes + no) * 1_000_000_000_000_000_000int / staked >= c.quorum.atomics,
    ensures
        poll_result(c, yes, no, staked) != PollResult::QuorumNotReached,
        (poll_result(c, yes, no, staked) == PollResult::Passed)
            <==> yes * 1_000_000_000_000_000_000int / (yes + no) >= c.threshold.atomics,
{
}

/// A poll whose turnout falls short of the quorum, or that has no votes, is
/// rejected for want of quorum.
pub proof fn lemma_poll_without_quorum(c: Config, yes: int, no: int, staked: int)
    requires
        yes >= 0,
        no >= 0,
        staked > 0,
        (yes + no) * 1_000_000_000_000_000_000int / staked < c.quorum.atomics
            || (yes + no) * 1_000_000_000_000_000_000int / staked == 0,
    ensures
        poll_result(c, yes, no, staked) == PollResult::QuorumNotReached,
{
}

/// Two polls with the same votes, both past the quorum, end alike however much
/// SPEC was staked.
pub proof fn lemma_poll_result_independent_of_stake(c: Config, yes: int, no: int, staked1: int, staked2: int)
    requires
        yes >= 0,
        no >= 0,
        staked1 > 0,
        staked2 > 0,
        (yes + no) * 1_000_000_000_000_000_000int / staked1 > 0,
        (yes + no) * 1_000_000_000_000_000_000int / staked1 >= c.quorum.atomics,
        (yes + no) * 1_000_000_000_000_000_000int / staked2 > 0,
        (yes + no) * 1_000_000_000_000_000_000int / staked2 >= c.quorum.atomics,
    ensures
        poll_result(c, yes, no, staked1) == poll_result(c, yes, no, staked2),
{
    lemma_poll_passes_by_votes_cast(c, yes, no, staked1);
    lemma_poll_passes_by_votes_cast(c, yes, no, staked2);
}

/// A poll never returns more than its creator deposited.
pub proof fn lemma_poll_return_bounded(c: Config, p: Poll, staked: int)
    requires
        staked >= 0,
    ensures
        0 <= poll_return_amount(c, p, staked) <= p.deposit_amount,
{
    let yes = p.yes_votes as int;
    let no = p.no_votes as int;
    let q = poll_quorum(yes, no, staked);
    let d = DECIMAL_FRACTIONAL as int;
    if p.deposit_amount != 0 && poll_result(c, yes, no, staked) != PollResult::Passed && p.execute_msgs@.len() != 0 && q != 0 {
        if q < c.quorum.atomics {
            let qa = c.quorum.atomics as int;
            let m = spec_mul_dec(staked, c.quorum);
            assert(staked != 0);
            // the turnout fell short of the quorum, so the votes fall short of its share of the stake
            assert((yes + no) * d < qa * staked) by {
                if (yes + no) * d >= qa * staked {
                    vstd::arithmetic::div_mod::lemma_div_is_ordered(qa * staked, (yes + no) * d, staked);
                    vstd::arithmetic::div_mod::lemma_div_by_multiple(qa, staked);
                }
            }
            assert(yes * d <= staked * qa) by (nonlinear_arith)
                requires (yes + no) * d < qa * staked, no >= 0, d > 0;
            vstd::arithmetic::div_mod::lemma_div_is_ordered(yes * d, staked * qa, d);
            vstd::arithmetic::div_mod::lemma_div_by_multiple(yes, d);
            assert(yes <= m);
            if m > 0 {
                crate::math::lemma_ratio_le_value(p.deposit_amount as int, yes, m);
            }
        } else {
            crate::math::lemma_ratio_le_value(p.deposit_amount as int, yes, yes + no);
        }
    }
}

} // verus!
