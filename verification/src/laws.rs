//! What holds of the lottery as a whole, proved from the model of its
//! operations.

use crate::contract::{
    lemma_ticket_id_first, payment_accepted, spec_buy_ticket, spec_end_round, spec_execute,
    spec_instantiate, spec_query_round_winners, spec_set_paused, spec_ticket_id, spec_transfers,
    spec_winners, spec_with_ticket,
};
use crate::error::ContractError;
use crate::msg::{ExecuteMsg, InstantiateMsgView, MessageInfoView, ResponseView, TransferView};
use crate::payout::{
    lemma_payout_within_pool, spec_admin_fee, spec_dust, spec_paid_out, spec_prize_amount,
    WINNER_COUNT,
};
use crate::selection::{distinct_slots, lemma_select_distinct, spec_select};
use crate::state::{CoinView, ConfigView, LotteryView, RoundView};
use vstd::prelude::*;

verus! {

/// The round after the requests `purchases` were made one after the other,
/// each one a purchase. A refused purchase leaves the round as it was.
pub open spec fn spec_after_purchases(
    config: ConfigView,
    round: RoundView,
    purchases: Seq<MessageInfoView>,
) -> RoundView
    decreases purchases.len(),
{
    if purchases.len() == 0 {
        round
    } else {
        let before = spec_after_purchases(config, round, purchases.drop_last());
        match spec_buy_ticket(config, before, purchases.last()) {
            Ok((after, _)) => after,
            Err(_) => before,
        }
    }
}

/// The sum of the amounts that `messages` pay.
pub open spec fn spec_total_paid(messages: Seq<TransferView>) -> nat
    decreases messages.len(),
{
    if messages.len() == 0 {
        0
    } else {
        spec_total_paid(messages.drop_last()) + messages.last().amount.amount
    }
}

/// After `n` accepted purchases the round holds `n` tickets more, in the
/// order of sale, and `n` entry prices more. A round that was opened empty
/// therefore holds exactly `n` tickets and `n` times the entry price.
pub proof fn lemma_purchases_fill_pool(
    config: ConfigView,
    round: RoundView,
    purchases: Seq<MessageInfoView>,
)
    requires
        !config.paused,
        forall|i: int|
            0 <= i < purchases.len() ==> payment_accepted(config, (#[trigger] purchases[i]).funds),
    ensures
        ({
            let after = spec_after_purchases(config, round, purchases);
            &&& after.id == round.id
            &&& after.start_time == round.start_time
            &&& after.total_funds.denom == round.total_funds.denom
            &&& after.total_funds.amount == round.total_funds.amount + purchases.len()
                * config.ticket_price.amount
            &&& after.participants == round.participants + purchases.map_values(
                |info: MessageInfoView| info.sender,
            )
            &&& after.participants.len() == round.participants.len() + purchases.len()
            &&& round.wf(config) ==> after.wf(config)
            &&& round.participants.len() == 0 && round.wf(config) ==> {
                &&& after.participants.len() == purchases.len()
                &&& after.total_funds.amount == purchases.len() * config.ticket_price.amount
            }
        }),
    decreases purchases.len(),
{
    if purchases.len() > 0 {
        let price = config.ticket_price.amount;
        let earlier = purchases.drop_last();
        lemma_purchases_fill_pool(config, round, earlier);
        assert(purchases.len() * price == earlier.len() * price + price) by (nonlinear_arith)
            requires
                purchases.len() == earlier.len() + 1,
        ;
        if round.wf(config) {
            let sold = round.participants.len();
            let n = purchases.len();
            assert(price * (sold + n) == price * sold + n * price) by (nonlinear_arith);
        }
        if round.participants.len() == 0 && round.wf(config) {
            assert(price * 0 == 0) by (nonlinear_arith);
        }
    }
}

/// A payment that is a single coin of the wrong currency or of the wrong
/// amount, or that is no single coin at all, is refused with `InvalidFunds`
/// while sales are open. The refusal leaves the round as it was: the model
/// of a refused purchase has no next round.
pub proof fn lemma_wrong_payment_refused(config: ConfigView, round: RoundView, info: MessageInfoView)
    requires
        !config.paused,
        info.funds.len() != 1 || info.funds[0].denom != config.ticket_price.denom
            || info.funds[0].amount != config.ticket_price.amount,
    ensures
        spec_buy_ticket(config, round, info) == Err::<(RoundView, ResponseView), ContractError>(
            ContractError::InvalidFunds {},
        ),
        spec_after_purchases(config, round, seq![info]) == round,
{
    reveal_with_fuel(spec_after_purchases, 2);
}

/// Before its time window has elapsed a round cannot be closed, whoever
/// asks and whatever it holds.
pub proof fn lemma_early_closing_refused(config: ConfigView, round: RoundView, now: u64)
    requires
        now < round.start_time + config.round_duration,
    ensures
        spec_end_round(config, round, now) == Err::<(RoundView, ResponseView), ContractError>(
            ContractError::RoundNotEnded {},
        ),
{
}

/// A round without tickets cannot be closed once its time window has
/// elapsed.
pub proof fn lemma_empty_closing_refused(config: ConfigView, round: RoundView, now: u64)
    requires
        now >= round.start_time + config.round_duration,
        round.participants.len() == 0,
    ensures
        spec_end_round(config, round, now) == Err::<(RoundView, ResponseView), ContractError>(
            ContractError::NoParticipants {},
        ),
{
}

/// The payments of a closing add up to three prizes and the fee.
pub proof fn lemma_total_paid(config: ConfigView, winners: Seq<Seq<char>>, pool: nat)
    requires
        winners.len() == WINNER_COUNT,
    ensures
        spec_total_paid(spec_transfers(config, winners, pool)) == spec_paid_out(pool),
{
    let messages = spec_transfers(config, winners, pool);
    let three = messages.drop_last();
    let two = three.drop_last();
    let one = two.drop_last();
    let none = one.drop_last();
    assert(spec_total_paid(none) == 0);
    assert(spec_total_paid(one) == spec_prize_amount(pool));
    assert(spec_total_paid(two) == 2 * spec_prize_amount(pool));
    assert(spec_total_paid(three) == 3 * spec_prize_amount(pool));
}

/// A successful closing opens the next round empty, numbered one higher and
/// started at the closing time. It answers with four payments in the
/// currency of the entry price: the same prize to each of three winners,
/// then the fee to the administrator. Together they do not exceed the pool,
/// and they leave at most three units of it behind.
pub proof fn lemma_closing_outcome(config: ConfigView, round: RoundView, now: u64)
    requires
        spec_end_round(config, round, now) is Ok,
        round.participants.len() <= usize::MAX,
    ensures
        ({
            let (next, answer) = spec_end_round(config, round, now)->Ok_0;
            let pool = round.total_funds.amount;
            &&& next.id == round.id + 1
            &&& next.total_funds.amount == 0
            &&& next.total_funds.denom == config.ticket_price.denom
            &&& next.participants.len() == 0
            &&& next.start_time == now
            &&& next.wf(config)
            &&& answer is EndRound
            &&& answer->round_id == round.id
            &&& answer->winners.len() == WINNER_COUNT
            &&& answer->messages.len() == WINNER_COUNT + 1
            &&& forall|i: int|
                0 <= i < WINNER_COUNT ==> (#[trigger] answer->messages[i]) == (TransferView {
                    to_address: answer->winners[i],
                    amount: CoinView {
                        denom: config.ticket_price.denom,
                        amount: spec_prize_amount(pool),
                    },
                })
            &&& answer->messages[WINNER_COUNT as int] == (TransferView {
                to_address: config.admin,
                amount: CoinView {
                    denom: config.ticket_price.denom,
                    amount: spec_admin_fee(pool),
                },
            })
            &&& spec_total_paid(answer->messages) <= pool
            &&& pool - spec_total_paid(answer->messages) == spec_dust(pool)
            &&& spec_dust(pool) <= 3
        }),
{
    let count = round.participants.len();
    lemma_select_distinct(now, count, WINNER_COUNT as nat);
    let (next, answer) = spec_end_round(config, round, now)->Ok_0;
    let pool = round.total_funds.amount;
    lemma_total_paid(config, answer->winners, pool);
    lemma_payout_within_pool(pool);
}

/// Every winner of a closing holds a ticket of the round that was closed:
/// the `i`-th winner is the holder of the `i`-th slot drawn, the three slots
/// are different tickets of the round, and a round that can be closed has at
/// least three tickets.
pub proof fn lemma_winners_are_participants(config: ConfigView, round: RoundView, now: u64)
    requires
        spec_end_round(config, round, now) is Ok,
        round.participants.len() <= usize::MAX,
    ensures
        ({
            let winners = spec_end_round(config, round, now)->Ok_0.1->winners;
            let slots = spec_select(now, round.participants.len(), WINNER_COUNT as nat)->0;
            &&& round.participants.len() >= WINNER_COUNT
            &&& winners == spec_winners(round.participants, slots)
            &&& distinct_slots(slots, round.participants.len())
            &&& forall|i: int|
                0 <= i < WINNER_COUNT ==> round.participants.contains(#[trigger] winners[i])
        }),
{
    let count = round.participants.len();
    lemma_select_distinct(now, count, WINNER_COUNT as nat);
    let slots = spec_select(now, count, WINNER_COUNT as nat)->0;
    let winners = spec_winners(round.participants, slots);
    assert forall|i: int| 0 <= i < WINNER_COUNT implies round.participants.contains(
        #[trigger] winners[i],
    ) by {}
    // Three different slots do not fit below a count of two.
    assert(slots[0] != slots[1] && slots[0] != slots[2] && slots[1] != slots[2]);
}

/// The history only grows, and only by a closing: every accepted request
/// leaves the entries of the closed rounds as they were, a closing adds the
/// winners it answered with under the id of the round it closed, and every
/// winner it adds held a ticket of that round.
pub proof fn lemma_history_append_only(
    state: LotteryView,
    now: u64,
    info: MessageInfoView,
    msg: ExecuteMsg,
)
    requires
        state.wf(),
        state.round.participants.len() <= usize::MAX,
        spec_execute(state, now, info, msg) is Ok,
    ensures
        ({
            let (next, answer) = spec_execute(state, now, info, msg)->Ok_0;
            &&& msg !is EndRound ==> next.history == state.history
            &&& msg is EndRound ==> {
                &&& next.history == state.history.push(answer->winners)
                &&& next.history[state.round.id - 1] == answer->winners
                &&& forall|i: int|
                    0 <= i < WINNER_COUNT ==> state.round.participants.contains(
                        #[trigger] answer->winners[i],
                    )
            }
        }),
{
    if msg is EndRound {
        lemma_winners_are_participants(state.config, state.round, now);
    }
}

/// Every accepted request leaves a well-formed state well formed: the pool
/// is the entry price times the number of tickets, and the history has one
/// entry of three winners for each closed round. No request changes the
/// administrator, the entry price or the round duration; only pausing and
/// resuming change the pause flag.
pub proof fn lemma_execute_preserves_wf(
    state: LotteryView,
    now: u64,
    info: MessageInfoView,
    msg: ExecuteMsg,
)
    requires
        state.wf(),
        state.round.participants.len() <= usize::MAX,
        spec_execute(state, now, info, msg) is Ok,
    ensures
        spec_execute(state, now, info, msg)->Ok_0.0.wf(),
        state.config.same_terms(spec_execute(state, now, info, msg)->Ok_0.0.config),
        msg !is Pause && msg !is Resume ==> spec_execute(state, now, info, msg)->Ok_0.0.config
            == state.config,
{
    let next = spec_execute(state, now, info, msg)->Ok_0.0;
    let price = state.config.ticket_price.amount;
    match msg {
        ExecuteMsg::BuyTicket {} => {
            let sold = state.round.participants.len();
            assert(price * (sold + 1) == price * sold + price) by (nonlinear_arith);
        },
        ExecuteMsg::EndRound {} => {
            lemma_closing_outcome(state.config, state.round, now);
            assert forall|k: int| 0 <= k < next.history.len() implies (
            #[trigger] next.history[k]).len() == WINNER_COUNT by {}
        },
        _ => {},
    }
}

/// A lottery is created exactly if the host accepts the administrator's
/// address. It is created well formed, not paused, with round 1 open and
/// empty, with the price and duration asked for, and under the administrator
/// the message names, or under the sender if it names none. Its entry price
/// is positive if the one asked for is.
pub proof fn lemma_instantiate_wf(
    now: u64,
    info: MessageInfoView,
    msg: InstantiateMsgView,
    admin_is_valid: bool,
)
    ensures
        spec_instantiate(now, info, msg, admin_is_valid) is Ok <==> admin_is_valid,
        admin_is_valid ==> ({
            let state = spec_instantiate(now, info, msg, admin_is_valid)->Ok_0;
            &&& state.wf()
            &&& state.config.wf() <==> msg.ticket_price.amount > 0
            &&& msg.admin is Some ==> state.config.admin == msg.admin->0
            &&& msg.admin is None ==> state.config.admin == info.sender
            &&& state.config.ticket_price == msg.ticket_price
            &&& state.config.round_duration == msg.round_duration
            &&& !state.config.paused
            &&& state.round.id == 1
            &&& state.round.start_time == now
            &&& state.round.participants.len() == 0
            &&& state.round.total_funds.amount == 0
            &&& state.round.total_funds.denom == msg.ticket_price.denom
            &&& state.history.len() == 0
        }),
{
}

/// Where each ticket is held by a different address, the holder of the
/// `k`-th ticket is told `k`.
pub proof fn lemma_unique_buyers_ticket_ids(participants: Seq<Seq<char>>, k: int)
    requires
        participants.no_duplicates(),
        0 <= k < participants.len(),
    ensures
        spec_ticket_id(participants, participants[k]) == Some((k + 1) as nat),
{
    lemma_ticket_id_first(participants, participants[k], k);
}

/// The ticket number told to an address is the position of the first ticket
/// it holds, and an address is told none exactly if it holds no ticket.
pub proof fn lemma_ticket_id_is_first(participants: Seq<Seq<char>>, address: Seq<char>)
    ensures
        match spec_ticket_id(participants, address) {
            Some(ticket) => {
                &&& 1 <= ticket <= participants.len()
                &&& participants[ticket - 1] == address
                &&& forall|j: int| 0 <= j < ticket - 1 ==> participants[j] != address
            },
            None => !participants.contains(address),
        },
    decreases participants.len(),
{
    if participants.len() > 0 {
        let earlier = participants.drop_last();
        lemma_ticket_id_is_first(earlier, address);
        match spec_ticket_id(earlier, address) {
            Some(ticket) => {
                assert forall|j: int| 0 <= j < ticket - 1 implies participants[j] != address by {
                    assert(earlier[j] == participants[j]);
                }
            },
            None => {
                if participants.last() == address {
                    assert forall|j: int| 0 <= j < participants.len() - 1 implies participants[j]
                        != address by {
                        assert(earlier.contains(earlier[j]));
                    }
                } else {
                    assert forall|j: int| 0 <= j < participants.len() implies participants[j]
                        != address by {
                        if j < earlier.len() {
                            assert(earlier.contains(earlier[j]));
                        }
                    }
                }
            },
        }
    }
}

/// Buying a ticket does not change the number of any ticket sold before.
pub proof fn lemma_purchase_keeps_ticket_ids(
    config: ConfigView,
    round: RoundView,
    buyer: Seq<char>,
    address: Seq<char>,
)
    requires
        spec_ticket_id(round.participants, address) is Some,
    ensures
        spec_ticket_id(spec_with_ticket(config, round, buyer).participants, address)
            == spec_ticket_id(round.participants, address),
{
    assert(round.participants.push(buyer).drop_last() =~= round.participants);
}

/// A buyer is told the number of the ticket just bought when asking for the
/// first time, and the number of the first ticket bought ever after.
pub proof fn lemma_purchase_is_found(config: ConfigView, round: RoundView, info: MessageInfoView)
    requires
        spec_buy_ticket(config, round, info) is Ok,
    ensures
        ({
            let (next, answer) = spec_buy_ticket(config, round, info)->Ok_0;
            match spec_ticket_id(round.participants, info.sender) {
                Some(first) => spec_ticket_id(next.participants, info.sender) == Some(first),
                None => spec_ticket_id(next.participants, info.sender) == Some(answer->ticket_id),
            }
        }),
{
    assert(round.participants.push(info.sender).drop_last() =~= round.participants);
}

/// The winners of a round can be asked for from its closing on, and not
/// before: a closing makes the question for the round it closed answer with
/// the winners it drew, and leaves the answers for earlier rounds as they
/// were.
pub proof fn lemma_winners_on_record(state: LotteryView, now: u64, info: MessageInfoView, id: nat)
    requires
        state.wf(),
        spec_execute(state, now, info, ExecuteMsg::EndRound {}) is Ok,
    ensures
        ({
            let (next, answer) = spec_execute(state, now, info, ExecuteMsg::EndRound {})->Ok_0;
            &&& spec_query_round_winners(state.history, state.round.id) is Err
            &&& spec_query_round_winners(next.history, state.round.id) == Ok::<
                Seq<Seq<char>>,
                ContractError,
            >(answer->winners)
            &&& spec_query_round_winners(next.history, next.round.id) is Err
            &&& id < state.round.id ==> spec_query_round_winners(next.history, id)
                == spec_query_round_winners(state.history, id)
        }),
{
}

/// While the lottery is paused every purchase is refused with `Paused`,
/// whatever is paid, and pausing by the administrator brings that about.
pub proof fn lemma_pause_blocks_purchases(
    state: LotteryView,
    now: u64,
    admin: MessageInfoView,
    later: u64,
    buyer: MessageInfoView,
)
    requires
        admin.sender == state.config.admin,
    ensures
        spec_execute(state, now, admin, ExecuteMsg::Pause {}) is Ok,
        ({
            let paused = spec_execute(state, now, admin, ExecuteMsg::Pause {})->Ok_0.0;
            &&& paused.config.paused
            &&& paused.round == state.round
            &&& paused.history == state.history
            &&& spec_execute(paused, later, buyer, ExecuteMsg::BuyTicket {}) == Err::<
                (LotteryView, ResponseView),
                ContractError,
            >(ContractError::Paused {})
        }),
{
}

/// Resuming by the administrator undoes a pause: a lottery that was open for
/// sales, was paused and then resumed is the lottery it was, so every
/// purchase is answered as it would have been without the pause.
pub proof fn lemma_resume_restores_purchases(
    state: LotteryView,
    now: u64,
    admin: MessageInfoView,
    later: u64,
    buyer: MessageInfoView,
)
    requires
        admin.sender == state.config.admin,
        !state.config.paused,
    ensures
        ({
            let paused = spec_execute(state, now, admin, ExecuteMsg::Pause {})->Ok_0.0;
            let resumed = spec_execute(paused, now, admin, ExecuteMsg::Resume {})->Ok_0.0;
            &&& spec_execute(paused, now, admin, ExecuteMsg::Resume {}) is Ok
            &&& resumed == state
            &&& spec_execute(resumed, later, buyer, ExecuteMsg::BuyTicket {}) == spec_execute(
                state,
                later,
                buyer,
                ExecuteMsg::BuyTicket {},
            )
        }),
{
}

/// Pausing and resuming are refused with `Unauthorized` to everyone but the
/// administrator.
pub proof fn lemma_only_admin_pauses(state: LotteryView, now: u64, info: MessageInfoView)
    requires
        info.sender != state.config.admin,
    ensures
        spec_execute(state, now, info, ExecuteMsg::Pause {}) == Err::<
            (LotteryView, ResponseView),
            ContractError,
        >(ContractError::Unauthorized {}),
        spec_execute(state, now, info, ExecuteMsg::Resume {}) == Err::<
            (LotteryView, ResponseView),
            ContractError,
        >(ContractError::Unauthorized {}),
{
}

/// Pausing twice is pausing once, and so for resuming.
pub proof fn lemma_pause_idempotent(config: ConfigView, sender: Seq<char>, paused: bool)
    requires
        sender == config.admin,
    ensures
        spec_set_paused(config, sender, paused) is Ok,
        spec_set_paused(spec_set_paused(config, sender, paused)->Ok_0, sender, paused)
            == spec_set_paused(config, sender, paused),
{
}

} // verus!
