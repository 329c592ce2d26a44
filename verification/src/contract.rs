//! The operations of the lottery: ticket sale, round closing, pause and
//! resume, and the read-only queries.
//!
//! Every operation comes with a function of the model that says what it
//! returns and what it leaves behind. A refused request leaves the state as
//! it was.

use crate::error::ContractError;
use crate::msg::{
    Env, ExecuteMsg, InstantiateMsg, InstantiateMsgView, MessageInfo, MessageInfoView, QueryMsg,
    QueryMsgView, QueryResponse, QueryResponseView, Response, ResponseView, Transfer, TransferView,
};
use crate::payout::{admin_fee, prize_amount, spec_admin_fee, spec_prize_amount, WINNER_COUNT};
use crate::selection::{lemma_select_distinct, select_slots, spec_select};
use crate::state::{
    Coin, CoinView, Config, ConfigView, Lottery, LotteryView, Round, RoundView, RoundWinners,
};
use vstd::prelude::*;

verus! {

/// The address the host must check before the lottery is created: the
/// administrator the message names, or the sender if it names none.
pub open spec fn spec_admin_candidate(info: MessageInfoView, msg: InstantiateMsgView) -> Seq<char> {
    match msg.admin {
        Some(admin) => admin,
        None => info.sender,
    }
}

/// The lottery as it is created at time `now`: under the administrator the
/// message names or else the sender, not paused, with round 1 open and empty
/// and no round closed. `admin_is_valid` says whether the host found that
/// address well formed.
pub open spec fn spec_instantiate(
    now: u64,
    info: MessageInfoView,
    msg: InstantiateMsgView,
    admin_is_valid: bool,
) -> Result<LotteryView, ContractError> {
    if !admin_is_valid {
        Err(ContractError::InvalidAddress {})
    } else {
        let config = ConfigView {
            admin: spec_admin_candidate(info, msg),
            ticket_price: msg.ticket_price,
            round_duration: msg.round_duration,
            paused: false,
        };
        Ok(
            LotteryView {
                config,
                round: RoundView::fresh(1, config, now as nat),
                history: Seq::empty(),
            },
        )
    }
}

/// The address the host must check before it creates the lottery.
pub fn admin_candidate(info: &MessageInfo, msg: &InstantiateMsg) -> (candidate: String)
    ensures
        candidate@ == spec_admin_candidate(info@, msg@),
{
    match &msg.admin {
        Some(admin) => admin.clone(),
        None => info.sender.clone(),
    }
}

/// Creates the lottery. `admin_is_valid` is the outcome of the host's check
/// of [`admin_candidate`].
pub fn instantiate(env: Env, info: MessageInfo, msg: InstantiateMsg, admin_is_valid: bool) -> (res:
    Result<Lottery, ContractError>)
    ensures
        match (res, spec_instantiate(env.time, info@, msg@, admin_is_valid)) {
            (Ok(state), Ok(expected)) => state@ == expected && state.wf(),
            (Err(e), Err(expected)) => e == expected,
            _ => false,
        },
{
    if !admin_is_valid {
        return Err(ContractError::InvalidAddress {});
    }
    let admin: String = admin_candidate(&info, &msg);
    let denom: String = msg.ticket_price.denom.clone();
    let config = Config {
        admin,
        ticket_price: msg.ticket_price,
        round_duration: msg.round_duration,
        paused: false,
    };
    let round = Round {
        id: 1,
        total_funds: Coin { denom, amount: 0 },
        participants: Vec::new(),
        start_time: env.time,
    };
    let state = Lottery { config, round, history: Vec::new() };
    assert(state.round.participants.deep_view() =~= Seq::<Seq<char>>::empty());
    assert(state.history.deep_view() =~= Seq::<Seq<Seq<char>>>::empty());
    assert(state@.config.ticket_price.amount * 0 == 0) by (nonlinear_arith);
    Ok(state)
}

/// The time of the request, in seconds.
pub fn current_time(env: &Env) -> (now: u64)
    ensures
        now == env.time,
{
    env.time
}

/// Whether `funds` is the payment for one ticket: a single coin, equal to the
/// entry price in currency and amount.
pub open spec fn payment_accepted(config: ConfigView, funds: Seq<CoinView>) -> bool {
    funds.len() == 1 && funds[0] == config.ticket_price
}

/// `round` after one more ticket was sold to `buyer`.
pub open spec fn spec_with_ticket(config: ConfigView, round: RoundView, buyer: Seq<char>) -> RoundView {
    RoundView {
        id: round.id,
        total_funds: CoinView {
            denom: round.total_funds.denom,
            amount: round.total_funds.amount + config.ticket_price.amount,
        },
        participants: round.participants.push(buyer),
        start_time: round.start_time,
    }
}

/// What a purchase gives: the round with the new ticket and the ticket's
/// number in it, or the reason for the refusal.
pub open spec fn spec_buy_ticket(config: ConfigView, round: RoundView, info: MessageInfoView) -> Result<
    (RoundView, ResponseView),
    ContractError,
> {
    if config.paused {
        Err(ContractError::Paused {})
    } else if !payment_accepted(config, info.funds) {
        Err(ContractError::InvalidFunds {})
    } else {
        let next = spec_with_ticket(config, round, info.sender);
        Ok((next, ResponseView::BuyTicket { ticket_id: next.participants.len() }))
    }
}

/// Whether `funds` pays for exactly one ticket.
pub fn is_ticket_payment(config: &Config, funds: &Vec<Coin>) -> (accepted: bool)
    ensures
        accepted == payment_accepted(config@, funds.deep_view()),
{
    funds.len() == 1 && funds[0].denom == config.ticket_price.denom && funds[0].amount
        == config.ticket_price.amount
}

/// Sells one ticket to the sender. The pool must have room for one more
/// entry price.
pub fn try_buy_ticket(config: &Config, round: &mut Round, info: &MessageInfo) -> (res: Result<
    Response,
    ContractError,
>)
    requires
        spec_buy_ticket(config@, old(round)@, info@) is Ok ==> old(round).total_funds.amount
            + config.ticket_price.amount <= u128::MAX,
    ensures
        match (res, spec_buy_ticket(config@, old(round)@, info@)) {
            (Ok(response), Ok((next, answer))) => final(round)@ == next && response@ == answer,
            (Err(e), Err(expected)) => e == expected && *final(round) == *old(round),
            _ => false,
        },
        old(round).wf(config) ==> final(round).wf(config),
{
    if config.paused {
        return Err(ContractError::Paused {});
    }
    if !is_ticket_payment(config, &info.funds) {
        return Err(ContractError::InvalidFunds {});
    }
    let ghost before = round@;
    round.participants.push(info.sender.clone());
    round.total_funds.amount = round.total_funds.amount + config.ticket_price.amount;
    let ticket_id: u64 = round.participants.len() as u64;
    proof {
        assert(round.participants.deep_view() =~= before.participants.push(info.sender@));
        let price = config@.ticket_price.amount;
        let sold = before.participants.len();
        assert(price * (sold + 1) == price * sold + price) by (nonlinear_arith);
    }
    Ok(Response::BuyTicket { ticket_id })
}

/// The holders of the tickets at `slots`, in the order of `slots`.
pub open spec fn spec_winners(participants: Seq<Seq<char>>, slots: Seq<usize>) -> Seq<Seq<char>> {
    Seq::new(slots.len(), |i: int| participants[slots[i] as int])
}

/// The payments of a closing: the prize to each winner in the order drawn,
/// then the fee to the administrator, all in the currency of the entry price.
pub open spec fn spec_transfers(config: ConfigView, winners: Seq<Seq<char>>, pool: nat) -> Seq<
    TransferView,
> {
    Seq::new(
        winners.len(),
        |i: int|
            TransferView {
                to_address: winners[i],
                amount: CoinView {
                    denom: config.ticket_price.denom,
                    amount: spec_prize_amount(pool),
                },
            },
    ).push(
        TransferView {
            to_address: config.admin,
            amount: CoinView { denom: config.ticket_price.denom, amount: spec_admin_fee(pool) },
        },
    )
}

/// What closing `round` at time `now` gives: the round that opens next and
/// the answer, or the reason for the refusal.
pub open spec fn spec_end_round(config: ConfigView, round: RoundView, now: u64) -> Result<
    (RoundView, ResponseView),
    ContractError,
> {
    if now < round.end_time(config) {
        Err(ContractError::RoundNotEnded {})
    } else if round.participants.len() == 0 {
        Err(ContractError::NoParticipants {})
    } else {
        match spec_select(now, round.participants.len(), WINNER_COUNT as nat) {
            None => Err(ContractError::InsufficientParticipants {}),
            Some(slots) => {
                let winners = spec_winners(round.participants, slots);
                Ok(
                    (
                        RoundView::fresh(round.id + 1, config, now as nat),
                        ResponseView::EndRound {
                            round_id: round.id,
                            winners,
                            messages: spec_transfers(config, winners, round.total_funds.amount),
                        },
                    ),
                )
            },
        }
    }
}

/// Whether the time window of `round` has elapsed at `now`.
pub fn round_has_ended(config: &Config, round: &Round, now: u64) -> (ended: bool)
    ensures
        ended == (now >= round@.end_time(config@)),
{
    match round.start_time.checked_add(config.round_duration) {
        Some(end) => now >= end,
        None => false,
    }
}

/// Copies the holders of the tickets at `slots` out of `participants`.
pub fn pick_winners(participants: &Vec<String>, slots: &Vec<usize>) -> (winners: Vec<String>)
    requires
        forall|i: int| 0 <= i < slots@.len() ==> (#[trigger] slots@[i]) < participants@.len(),
    ensures
        winners.deep_view() == spec_winners(participants.deep_view(), slots@),
{
    let mut winners: Vec<String> = Vec::new();
    let mut i: usize = 0;
    while i < slots.len()
        invariant
            i <= slots@.len(),
            winners@.len() == i,
            forall|k: int| 0 <= k < slots@.len() ==> (#[trigger] slots@[k]) < participants@.len(),
            forall|k: int| 0 <= k < i ==> (#[trigger] winners@[k])@ == participants@[slots@[k] as int]@,
        decreases slots@.len() - i,
    {
        winners.push(participants[slots[i]].clone());
        i += 1;
    }
    winners
}

/// Writes the payments of a closing with the pool `pool`.
pub fn payout_messages(config: &Config, winners: &Vec<String>, pool: u128) -> (messages: Vec<
    Transfer,
>)
    ensures
        messages.deep_view() == spec_transfers(config@, winners.deep_view(), pool as nat),
{
    let prize: u128 = prize_amount(pool);
    let fee: u128 = admin_fee(pool);
    let mut messages: Vec<Transfer> = Vec::new();
    let mut i: usize = 0;
    while i < winners.len()
        invariant
            i <= winners@.len(),
            messages@.len() == i,
            prize == spec_prize_amount(pool as nat),
            forall|k: int|
                0 <= k < i ==> (#[trigger] messages@[k])@ == (TransferView {
                    to_address: winners@[k]@,
                    amount: CoinView { denom: config@.ticket_price.denom, amount: prize as nat },
                }),
        decreases winners@.len() - i,
    {
        messages.push(
            Transfer {
                to_address: winners[i].clone(),
                amount: Coin { denom: config.ticket_price.denom.clone(), amount: prize },
            },
        );
        i += 1;
    }
    messages.push(
        Transfer {
            to_address: config.admin.clone(),
            amount: Coin { denom: config.ticket_price.denom.clone(), amount: fee },
        },
    );
    messages
}

/// Whether `round` is due for a draw at `now`: its time window has elapsed
/// and it holds a ticket.
pub open spec fn spec_draw_is_due(config: ConfigView, round: RoundView, now: u64) -> bool {
    now >= round.end_time(config) && round.participants.len() > 0
}

/// Closes the round: draws the winners, writes the payments and opens the
/// next round at the time in `env`. Anyone may ask for it.
///
/// Where a draw is due, the round id must leave room for the next one.
pub fn try_end_round(config: &Config, round: &mut Round, env: &Env) -> (res: Result<
    Response,
    ContractError,
>)
    requires
        spec_draw_is_due(config@, old(round)@, env.time) ==> old(round).id < u64::MAX,
    ensures
        match (res, spec_end_round(config@, old(round)@, env.time)) {
            (Ok(response), Ok((next, answer))) => final(round)@ == next && response@ == answer,
            (Err(e), Err(expected)) => e == expected && *final(round) == *old(round),
            _ => false,
        },
        old(round).wf(config) ==> final(round).wf(config),
{
    if !round_has_ended(config, round, current_time(env)) {
        return Err(ContractError::RoundNotEnded {});
    }
    if round.participants.len() == 0 {
        return Err(ContractError::NoParticipants {});
    }
    let ghost count = round.participants@.len();
    let slots: Vec<usize> = match select_slots(env, round.participants.len()) {
        Ok(slots) => slots,
        Err(e) => {
            return Err(e);
        },
    };
    proof {
        lemma_select_distinct(env.time, count, WINNER_COUNT as nat);
    }
    let winners: Vec<String> = pick_winners(&round.participants, &slots);
    let messages: Vec<Transfer> = payout_messages(config, &winners, round.total_funds.amount);
    let round_id: u64 = round.id;
    *round = Round {
        id: round_id + 1,
        total_funds: Coin { denom: config.ticket_price.denom.clone(), amount: 0 },
        participants: Vec::new(),
        start_time: env.time,
    };
    proof {
        assert(round.participants.deep_view() =~= Seq::<Seq<char>>::empty());
        assert(config@.ticket_price.amount * 0 == 0) by (nonlinear_arith);
    }
    Ok(Response::EndRound { round_id, winners: RoundWinners { winners }, messages })
}

/// What setting the pause flag on behalf of `sender` gives.
pub open spec fn spec_set_paused(config: ConfigView, sender: Seq<char>, paused: bool) -> Result<
    ConfigView,
    ContractError,
> {
    if sender != config.admin {
        Err(ContractError::Unauthorized {})
    } else {
        Ok(
            ConfigView {
                admin: config.admin,
                ticket_price: config.ticket_price,
                round_duration: config.round_duration,
                paused,
            },
        )
    }
}

/// Suspends ticket sales. Only the administrator may.
pub fn try_pause(config: &mut Config, info: &MessageInfo) -> (res: Result<Response, ContractError>)
    ensures
        match (res, spec_set_paused(old(config)@, info@.sender, true)) {
            (Ok(response), Ok(next)) => final(config)@ == next && response@ == (
            ResponseView::Pause {}),
            (Err(e), Err(expected)) => e == expected && *final(config) == *old(config),
            _ => false,
        },
{
    if info.sender != config.admin {
        return Err(ContractError::Unauthorized {});
    }
    config.paused = true;
    Ok(Response::Pause {})
}

/// Takes ticket sales up again. Only the administrator may.
pub fn try_resume(config: &mut Config, info: &MessageInfo) -> (res: Result<Response, ContractError>)
    ensures
        match (res, spec_set_paused(old(config)@, info@.sender, false)) {
            (Ok(response), Ok(next)) => final(config)@ == next && response@ == (
            ResponseView::Resume {}),
            (Err(e), Err(expected)) => e == expected && *final(config) == *old(config),
            _ => false,
        },
{
    if info.sender != config.admin {
        return Err(ContractError::Unauthorized {});
    }
    config.paused = false;
    Ok(Response::Resume {})
}

/// What the machine's number widths ask of a request: a purchase that would
/// be accepted leaves the pool within 128 bits, and a closing for which a
/// draw is due leaves the round id within 64 bits.
pub open spec fn within_limits(
    state: LotteryView,
    now: u64,
    info: MessageInfoView,
    msg: ExecuteMsg,
) -> bool {
    match msg {
        ExecuteMsg::BuyTicket {} => spec_buy_ticket(state.config, state.round, info) is Ok
            ==> state.round.total_funds.amount + state.config.ticket_price.amount <= u128::MAX,
        ExecuteMsg::EndRound {} => spec_draw_is_due(state.config, state.round, now)
            ==> state.round.id < u64::MAX,
        _ => true,
    }
}

/// What a request gives on the whole state: the state it leaves behind and
/// the answer, or the reason for the refusal. A closing files its winners in
/// the history under the id of the round it closed.
pub open spec fn spec_execute(state: LotteryView, now: u64, info: MessageInfoView, msg: ExecuteMsg) -> Result<
    (LotteryView, ResponseView),
    ContractError,
> {
    match msg {
        ExecuteMsg::BuyTicket {} => match spec_buy_ticket(state.config, state.round, info) {
            Ok((round, answer)) => Ok(
                (LotteryView { config: state.config, round, history: state.history }, answer),
            ),
            Err(e) => Err(e),
        },
        ExecuteMsg::EndRound {} => match spec_end_round(state.config, state.round, now) {
            Ok((round, answer)) => Ok(
                (
                    LotteryView {
                        config: state.config,
                        round,
                        history: state.history.push(answer->winners),
                    },
                    answer,
                ),
            ),
            Err(e) => Err(e),
        },
        ExecuteMsg::Pause {} => match spec_set_paused(state.config, info.sender, true) {
            Ok(config) => Ok(
                (
                    LotteryView { config, round: state.round, history: state.history },
                    ResponseView::Pause {},
                ),
            ),
            Err(e) => Err(e),
        },
        ExecuteMsg::Resume {} => match spec_set_paused(state.config, info.sender, false) {
            Ok(config) => Ok(
                (
                    LotteryView { config, round: state.round, history: state.history },
                    ResponseView::Resume {},
                ),
            ),
            Err(e) => Err(e),
        },
    }
}

/// Carries out one request on the state.
pub fn execute(state: &mut Lottery, env: Env, info: MessageInfo, msg: ExecuteMsg) -> (res: Result<
    Response,
    ContractError,
>)
    requires
        old(state).wf(),
        within_limits(old(state)@, env.time, info@, msg),
    ensures
        match (res, spec_execute(old(state)@, env.time, info@, msg)) {
            (Ok(response), Ok((next, answer))) => final(state)@ == next && response@ == answer,
            (Err(e), Err(expected)) => e == expected && *final(state) == *old(state),
            _ => false,
        },
        final(state).wf(),
{
    match msg {
        ExecuteMsg::BuyTicket {} => try_buy_ticket(&state.config, &mut state.round, &info),
        ExecuteMsg::EndRound {} => {
            let ghost before = state@;
            let ghost count = state.round.participants.len() as nat;
            match try_end_round(&state.config, &mut state.round, &env) {
                Ok(Response::EndRound { round_id, winners, messages }) => {
                    state.history.push(RoundWinners { winners: copy_addresses(&winners.winners) });
                    proof {
                        lemma_select_distinct(env.time, count, WINNER_COUNT as nat);
                        assert(state.history.deep_view() =~= before.history.push(winners@));
                    }
                    Ok(Response::EndRound { round_id, winners, messages })
                },
                // A closing has no other answer.
                Ok(other) => Ok(other),
                Err(e) => Err(e),
            }
        },
        ExecuteMsg::Pause {} => try_pause(&mut state.config, &info),
        ExecuteMsg::Resume {} => try_resume(&mut state.config, &info),
    }
}

/// The number of the first ticket that `address` holds among `participants`,
/// counted from 1: the one found among the tickets before the last, or else
/// the last ticket if it is held by `address`.
pub open spec fn spec_ticket_id(participants: Seq<Seq<char>>, address: Seq<char>) -> Option<nat>
    decreases participants.len(),
{
    if participants.len() == 0 {
        None
    } else {
        match spec_ticket_id(participants.drop_last(), address) {
            Some(ticket) => Some(ticket),
            None => if participants.last() == address {
                Some(participants.len())
            } else {
                None
            },
        }
    }
}

/// The answer to the question for the ticket of `address`.
/// `address_is_valid` says whether the host found the address well formed.
pub open spec fn spec_query_ticket_id(round: RoundView, address: Seq<char>, address_is_valid: bool) -> Result<
    nat,
    ContractError,
> {
    if !address_is_valid {
        Err(ContractError::InvalidAddress {})
    } else {
        match spec_ticket_id(round.participants, address) {
            Some(ticket) => Ok(ticket),
            None => Err(ContractError::ParticipantNotFound {}),
        }
    }
}

/// The answer to the question for the winners of round `round_id`.
pub open spec fn spec_query_round_winners(history: Seq<Seq<Seq<char>>>, round_id: nat) -> Result<
    Seq<Seq<char>>,
    ContractError,
> {
    if 1 <= round_id <= history.len() {
        Ok(history[round_id - 1])
    } else {
        Err(ContractError::RoundNotFound {})
    }
}

/// The address the host must check before the query is answered, if the
/// query names one.
pub open spec fn spec_address_to_validate(msg: QueryMsgView) -> Option<Seq<char>> {
    match msg {
        QueryMsgView::GetTicketId { address } => Some(address),
        QueryMsgView::GetRoundWinners { .. } => None,
    }
}

/// The answer to a read-only request. `address_is_valid` says whether the
/// host found the address that the request names well formed; it has no
/// bearing on a request that names none.
pub open spec fn spec_query(state: LotteryView, msg: QueryMsgView, address_is_valid: bool) -> Result<
    QueryResponseView,
    ContractError,
> {
    match msg {
        QueryMsgView::GetTicketId { address } => match spec_query_ticket_id(
            state.round,
            address,
            address_is_valid,
        ) {
            Ok(ticket) => Ok(QueryResponseView::TicketId(ticket)),
            Err(e) => Err(e),
        },
        QueryMsgView::GetRoundWinners { round_id } => match spec_query_round_winners(
            state.history,
            round_id,
        ) {
            Ok(winners) => Ok(QueryResponseView::RoundWinners(winners)),
            Err(e) => Err(e),
        },
    }
}

/// The ticket at position `first` is the one [`spec_ticket_id`] finds, if no
/// earlier ticket is held by `address`.
pub proof fn lemma_ticket_id_first(participants: Seq<Seq<char>>, address: Seq<char>, first: int)
    requires
        0 <= first < participants.len(),
        participants[first] == address,
        forall|k: int| 0 <= k < first ==> participants[k] != address,
    ensures
        spec_ticket_id(participants, address) == Some((first + 1) as nat),
    decreases participants.len(),
{
    let earlier = participants.drop_last();
    if first == participants.len() - 1 {
        lemma_ticket_id_absent(earlier, address);
    } else {
        lemma_ticket_id_first(earlier, address, first);
    }
}

/// [`spec_ticket_id`] finds nothing where `address` holds no ticket.
pub proof fn lemma_ticket_id_absent(participants: Seq<Seq<char>>, address: Seq<char>)
    requires
        forall|k: int| 0 <= k < participants.len() ==> participants[k] != address,
    ensures
        spec_ticket_id(participants, address) is None,
    decreases participants.len(),
{
    if participants.len() > 0 {
        lemma_ticket_id_absent(participants.drop_last(), address);
    }
}

/// Finds the first ticket of `address` in the open round.
/// `address_is_valid` is the outcome of the host's check of the address.
pub fn query_ticket_id(round: &Round, address: &String, address_is_valid: bool) -> (res: Result<
    u64,
    ContractError,
>)
    ensures
        match (res, spec_query_ticket_id(round@, address@, address_is_valid)) {
            (Ok(ticket), Ok(expected)) => ticket == expected,
            (Err(e), Err(expected)) => e == expected,
            _ => false,
        },
{
    if !address_is_valid {
        return Err(ContractError::InvalidAddress {});
    }
    let ghost participants = round@.participants;
    let mut i: usize = 0;
    while i < round.participants.len()
        invariant
            i <= round.participants@.len(),
            participants == round@.participants,
            address_is_valid,
            forall|k: int| 0 <= k < i ==> participants[k] != address@,
        decreases round.participants@.len() - i,
    {
        if round.participants[i] == *address {
            proof {
                lemma_ticket_id_first(participants, address@, i as int);
            }
            return Ok(i as u64 + 1);
        }
        i += 1;
    }
    proof {
        lemma_ticket_id_absent(participants, address@);
    }
    Err(ContractError::ParticipantNotFound {})
}

/// Copies a list of addresses.
pub fn copy_addresses(addresses: &Vec<String>) -> (copy: Vec<String>)
    ensures
        copy.deep_view() == addresses.deep_view(),
{
    let mut copy: Vec<String> = Vec::new();
    let mut i: usize = 0;
    while i < addresses.len()
        invariant
            i <= addresses@.len(),
            copy@.len() == i,
            forall|k: int| 0 <= k < i ==> (#[trigger] copy@[k])@ == addresses@[k]@,
        decreases addresses@.len() - i,
    {
        copy.push(addresses[i].clone());
        i += 1;
    }
    copy
}

/// Looks up the winners of a closed round.
pub fn query_round_winners(history: &Vec<RoundWinners>, round_id: u64) -> (res: Result<
    Vec<String>,
    ContractError,
>)
    ensures
        match (res, spec_query_round_winners(history.deep_view(), round_id as nat)) {
            (Ok(winners), Ok(expected)) => winners.deep_view() == expected,
            (Err(e), Err(expected)) => e == expected,
            _ => false,
        },
{
    if round_id == 0 || round_id > history.len() as u64 {
        return Err(ContractError::RoundNotFound {});
    }
    let k: usize = (round_id - 1) as usize;
    Ok(copy_addresses(&history[k].winners))
}

/// The address the host must check before it asks [`query`].
pub fn address_to_validate(msg: &QueryMsg) -> (address: Option<String>)
    ensures
        address.deep_view() == spec_address_to_validate(msg@),
{
    match msg {
        QueryMsg::GetTicketId { address } => Some(address.clone()),
        QueryMsg::GetRoundWinners { .. } => None,
    }
}

/// Answers a read-only request. `address_is_valid` is the outcome of the
/// host's check of [`address_to_validate`]; where the request names no
/// address, it is not looked at.
pub fn query(state: &Lottery, msg: QueryMsg, address_is_valid: bool) -> (res: Result<
    QueryResponse,
    ContractError,
>)
    ensures
        match (res, spec_query(state@, msg@, address_is_valid)) {
            (Ok(response), Ok(expected)) => response@ == expected,
            (Err(e), Err(expected)) => e == expected,
            _ => false,
        },
{
    match msg {
        QueryMsg::GetTicketId { address } => match query_ticket_id(
            &state.round,
            &address,
            address_is_valid,
        ) {
            Ok(ticket) => Ok(QueryResponse::TicketId(ticket)),
            Err(e) => Err(e),
        },
        QueryMsg::GetRoundWinners { round_id } => match query_round_winners(
            &state.history,
            round_id,
        ) {
            Ok(winners) => Ok(QueryResponse::RoundWinners(winners)),
            Err(e) => Err(e),
        },
    }
}

} // verus!
