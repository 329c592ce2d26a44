//! Drawing the winning ticket slots of a round.
//!
//! The winners are drawn one after the other. The `k`-th draw starts from the
//! slot that seed `k` selects. While the slot at hand is already taken, the
//! draw moves on to the slot selected by that slot's number plus one. A draw
//! gives up after as many moves as the round has tickets: by then it has
//! revisited a taken slot and would circle among taken slots for ever.

use crate::error::ContractError;
use crate::msg::Env;
use crate::payout::WINNER_COUNT;
use crate::random::{pseudo_random, spec_pseudo_random};
use vstd::prelude::*;
use vstd::string::*;

verus! {

/// The fixed word that goes into every draw.
pub const SEED_WORD: &'static str = "totally random";

/// The slot that `seed` selects among `count` tickets at time `now`.
pub open spec fn spec_slot(now: u64, seed: u64, count: nat) -> usize
    recommends
        0 < count <= usize::MAX,
{
    spec_pseudo_random(now, SEED_WORD.spec_bytes(), seed, count) as usize
}

/// The seed that a draw moves on to from a taken slot.
pub open spec fn spec_next_seed(slot: usize) -> u64 {
    (slot + 1) as u64
}

/// What a draw does next.
#[derive(Debug, Clone, Copy, PartialEq, Eq, Structural)]
pub enum Step {
    /// The slot at hand is free: it is the winner.
    Rest { slot: usize },
    /// The slot at hand is taken: draw again from `seed`.
    Move { seed: u64 },
    /// The slot at hand is taken and the moves are used up.
    GiveUp {},
}

/// What a draw does when it stands at `candidate` with `budget` moves left.
pub open spec fn spec_step(taken: Seq<usize>, candidate: usize, budget: nat) -> Step {
    if !taken.contains(candidate) {
        Step::Rest { slot: candidate }
    } else if budget == 0 {
        Step::GiveUp {}
    } else {
        Step::Move { seed: spec_next_seed(candidate) }
    }
}

/// Where a draw that stands at `candidate` comes to rest: the first slot on
/// its way that is not in `taken`, or `None` if `budget` moves do not reach
/// one.
pub open spec fn spec_settle(
    now: u64,
    count: nat,
    taken: Seq<usize>,
    candidate: usize,
    budget: nat,
) -> Option<usize>
    decreases budget,
{
    match spec_step(taken, candidate, budget) {
        Step::Rest { slot } => Some(slot),
        Step::GiveUp {} => None,
        Step::Move { seed } => spec_settle(
            now,
            count,
            taken,
            spec_slot(now, seed, count),
            (budget - 1) as nat,
        ),
    }
}

/// The slots of the first `winners` draws among `count` tickets at time
/// `now`, in the order drawn, or `None` if one of the draws gives up.
pub open spec fn spec_select(now: u64, count: nat, winners: nat) -> Option<Seq<usize>>
    decreases winners,
{
    if winners == 0 {
        Some(Seq::empty())
    } else {
        match spec_select(now, count, (winners - 1) as nat) {
            None => None,
            Some(taken) => match spec_settle(
                now,
                count,
                taken,
                spec_slot(now, winners as u64, count),
                count,
            ) {
                None => None,
                Some(slot) => Some(taken.push(slot)),
            },
        }
    }
}

/// No slot occurs twice in `slots`, and each lies below `count`.
pub open spec fn distinct_slots(slots: Seq<usize>, count: nat) -> bool {
    &&& forall|i: int| 0 <= i < slots.len() ==> (#[trigger] slots[i]) < count
    &&& forall|i: int, j: int| 0 <= i < j < slots.len() ==> slots[i] != slots[j]
}

/// Whether `slot` is among `taken`.
pub fn is_taken(taken: &Vec<usize>, slot: usize) -> (found: bool)
    ensures
        found == taken@.contains(slot),
{
    let mut i: usize = 0;
    while i < taken.len()
        invariant
            i <= taken@.len(),
            forall|k: int| 0 <= k < i ==> taken@[k] != slot,
        decreases taken@.len() - i,
    {
        if taken[i] == slot {
            return true;
        }
        i += 1;
    }
    false
}

/// Decides what a draw does when it stands at `candidate` with `budget`
/// moves left. A slot is a position in a list of tickets, so it lies below
/// `usize::MAX`.
pub fn step(taken: &Vec<usize>, candidate: usize, budget: usize) -> (next: Step)
    requires
        candidate < usize::MAX,
    ensures
        next == spec_step(taken@, candidate, budget as nat),
{
    if !is_taken(taken, candidate) {
        Step::Rest { slot: candidate }
    } else if budget == 0 {
        Step::GiveUp {}
    } else {
        Step::Move { seed: candidate as u64 + 1 }
    }
}

/// Brings one draw to rest, starting from the slot that `seed` selects.
pub fn settle(env: &Env, count: usize, taken: &Vec<usize>, seed: u64) -> (slot: Option<usize>)
    requires
        count > 0,
    ensures
        slot == spec_settle(
            env.time,
            count as nat,
            taken@,
            spec_slot(env.time, seed, count as nat),
            count as nat,
        ),
        slot matches Some(s) ==> s < count && !taken@.contains(s),
{
    let mut candidate: usize = pseudo_random(env, SEED_WORD, seed, count);
    let mut budget: usize = count;
    let ghost first: usize = candidate;
    loop
        invariant
            count > 0,
            budget <= count,
            candidate < count,
            first == spec_slot(env.time, seed, count as nat),
            spec_settle(env.time, count as nat, taken@, first, count as nat) == spec_settle(
                env.time,
                count as nat,
                taken@,
                candidate,
                budget as nat,
            ),
        decreases budget,
    {
        match step(taken, candidate, budget) {
            Step::Rest { slot } => {
                return Some(slot);
            },
            Step::GiveUp {} => {
                return None;
            },
            Step::Move { seed } => {
                candidate = pseudo_random(env, SEED_WORD, seed, count);
                budget -= 1;
            },
        }
    }
}

/// Draws the winning slots among `count` tickets at the time in `env`.
///
/// Fails with `InsufficientParticipants` exactly when one of the draws gives
/// up, which is always the case with fewer tickets than winners.
pub fn select_slots(env: &Env, count: usize) -> (res: Result<Vec<usize>, ContractError>)
    requires
        count > 0,
    ensures
        match res {
            Ok(slots) => spec_select(env.time, count as nat, WINNER_COUNT as nat) == Some(slots@),
            Err(e) => e == (ContractError::InsufficientParticipants {}) && spec_select(
                env.time,
                count as nat,
                WINNER_COUNT as nat,
            ) is None,
        },
{
    let mut slots: Vec<usize> = Vec::new();
    let mut drawn: usize = 0;
    while drawn < WINNER_COUNT
        invariant
            count > 0,
            drawn <= WINNER_COUNT,
            spec_select(env.time, count as nat, drawn as nat) == Some(slots@),
        decreases WINNER_COUNT - drawn,
    {
        match settle(env, count, &slots, drawn as u64 + 1) {
            None => {
                return Err(ContractError::InsufficientParticipants {});
            },
            Some(slot) => {
                slots.push(slot);
            },
        }
        drawn += 1;
    }
    Ok(slots)
}

/// The slots of a successful selection are as many as asked for, lie below
/// the number of tickets, and are pairwise different.
pub proof fn lemma_select_distinct(now: u64, count: nat, winners: nat)
    requires
        0 < count <= usize::MAX,
        spec_select(now, count, winners) is Some,
    ensures
        spec_select(now, count, winners)->0.len() == winners,
        distinct_slots(spec_select(now, count, winners)->0, count),
    decreases winners,
{
    if winners > 0 {
        let taken = spec_select(now, count, (winners - 1) as nat)->0;
        lemma_select_distinct(now, count, (winners - 1) as nat);
        let start = spec_slot(now, winners as u64, count);
        lemma_settle_free(now, count, taken, start, count);
    }
}

/// A draw that comes to rest does so on a slot that is not taken; it lies
/// below the number of tickets if the slot the draw started from does.
pub proof fn lemma_settle_free(now: u64, count: nat, taken: Seq<usize>, candidate: usize, budget: nat)
    requires
        0 < count <= usize::MAX,
        candidate < count,
        spec_settle(now, count, taken, candidate, budget) is Some,
    ensures
        !taken.contains(spec_settle(now, count, taken, candidate, budget)->0),
        spec_settle(now, count, taken, candidate, budget)->0 < count,
    decreases budget,
{
    if taken.contains(candidate) && budget > 0 {
        lemma_slot_in_range(now, spec_next_seed(candidate), count);
        lemma_settle_free(
            now,
            count,
            taken,
            spec_slot(now, spec_next_seed(candidate), count),
            (budget - 1) as nat,
        );
    }
}

/// Every seed selects a slot below the number of tickets.
pub proof fn lemma_slot_in_range(now: u64, seed: u64, count: nat)
    requires
        0 < count <= usize::MAX,
    ensures
        spec_slot(now, seed, count) < count,
{
}

/// A round with fewer tickets than winners cannot be drawn.
pub proof fn lemma_too_few_tickets(now: u64, count: nat)
    requires
        0 < count < WINNER_COUNT,
    ensures
        spec_select(now, count, WINNER_COUNT as nat) is None,
{
    if spec_select(now, count, WINNER_COUNT as nat) is Some {
        lemma_select_distinct(now, count, WINNER_COUNT as nat);
        let slots = spec_select(now, count, WINNER_COUNT as nat)->0;
        assert(slots[0] != slots[1] && slots[0] != slots[2] && slots[1] != slots[2]);
    }
}

/// The slot a draw stands at after `moves` moves from `start`, taken or not.
pub open spec fn spec_walk(now: u64, count: nat, start: usize, moves: nat) -> usize
    decreases moves,
{
    if moves == 0 {
        start
    } else {
        spec_walk(now, count, spec_slot(now, spec_next_seed(start), count), (moves - 1) as nat)
    }
}

/// Walking `a` moves and then `b` moves is walking `a + b` moves.
pub proof fn lemma_walk_add(now: u64, count: nat, start: usize, a: nat, b: nat)
    ensures
        spec_walk(now, count, start, a + b) == spec_walk(
            now,
            count,
            spec_walk(now, count, start, a),
            b,
        ),
    decreases a,
{
    if a > 0 {
        let next = spec_slot(now, spec_next_seed(start), count);
        lemma_walk_add(now, count, next, (a - 1) as nat, b);
        assert(spec_walk(now, count, start, a + b) == spec_walk(
            now,
            count,
            next,
            (a + b - 1) as nat,
        ));
    }
}

/// A draw gives up within `budget` moves exactly if it stands on a taken slot
/// before and after each of them.
pub proof fn lemma_settle_none(now: u64, count: nat, taken: Seq<usize>, start: usize, budget: nat)
    ensures
        spec_settle(now, count, taken, start, budget) is None <==> forall|k: nat|
            k <= budget ==> taken.contains(#[trigger] spec_walk(now, count, start, k)),
    decreases budget,
{
    let next = spec_slot(now, spec_next_seed(start), count);
    if !taken.contains(start) {
        assert(spec_walk(now, count, start, 0) == start);
    } else if budget == 0 {
        assert forall|k: nat| k <= budget implies taken.contains(
            #[trigger] spec_walk(now, count, start, k),
        ) by {}
    } else {
        lemma_settle_none(now, count, taken, next, (budget - 1) as nat);
        if spec_settle(now, count, taken, start, budget) is None {
            assert forall|k: nat| k <= budget implies taken.contains(
                #[trigger] spec_walk(now, count, start, k),
            ) by {
                if k > 0 {
                    assert(spec_walk(now, count, start, k) == spec_walk(
                        now,
                        count,
                        next,
                        (k - 1) as nat,
                    ));
                }
            }
        } else {
            let k = choose|k: nat|
                k <= budget - 1 && !taken.contains(#[trigger] spec_walk(now, count, next, k));
            assert(spec_walk(now, count, start, k + 1) == spec_walk(now, count, next, k));
        }
    }
}

/// Giving up is final: a draw that has not come to rest after as many moves
/// as there are taken slots has come back to a slot it stood on before, and
/// from there on repeats itself. No larger number of moves brings it to
/// rest.
pub proof fn lemma_giving_up_is_final(
    now: u64,
    count: nat,
    taken: Seq<usize>,
    start: usize,
    budget: nat,
    more: nat,
)
    requires
        taken.len() <= budget,
        spec_settle(now, count, taken, start, budget) is None,
    ensures
        spec_settle(now, count, taken, start, more) is None,
{
    lemma_settle_none(now, count, taken, start, budget);
    let path = Seq::new(budget + 1, |k: int| spec_walk(now, count, start, k as nat));
    assert forall|k: int| 0 <= k < path.len() implies taken.contains(#[trigger] path[k]) by {}
    // The path has more entries than there are taken slots, so two of them
    // are the same slot.
    assert(!path.no_duplicates()) by {
        if path.no_duplicates() {
            path.unique_seq_to_set();
            taken.lemma_cardinality_of_set();
            vstd::seq_lib::seq_to_set_is_finite(taken);
            vstd::set_lib::lemma_len_subset(path.to_set(), taken.to_set());
        }
    }
    let (i, j) = choose|i: int, j: int|
        0 <= i < path.len() && 0 <= j < path.len() && i != j && path[i] == path[j];
    let (early, late) = if i < j {
        (i as nat, j as nat)
    } else {
        (j as nat, i as nat)
    };
    assert forall|k: nat| taken.contains(#[trigger] spec_walk(now, count, start, k)) by {
        lemma_walk_stays(now, count, taken, start, budget, early, late, k);
    }
    lemma_settle_none(now, count, taken, start, more);
}

/// A draw that stands on the same slot after `early` and after `late` moves,
/// and on taken slots up to `budget` moves, stands on taken slots for ever.
proof fn lemma_walk_stays(
    now: u64,
    count: nat,
    taken: Seq<usize>,
    start: usize,
    budget: nat,
    early: nat,
    late: nat,
    moves: nat,
)
    requires
        early < late <= budget,
        spec_walk(now, count, start, early) == spec_walk(now, count, start, late),
        forall|k: nat| k <= budget ==> taken.contains(#[trigger] spec_walk(now, count, start, k)),
    ensures
        taken.contains(spec_walk(now, count, start, moves)),
    decreases moves,
{
    if moves > budget {
        let period = (late - early) as nat;
        let back = (moves - period) as nat;
        let rest = (back - early) as nat;
        lemma_walk_add(now, count, start, early, rest);
        lemma_walk_add(now, count, start, late, rest);
        lemma_walk_stays(now, count, taken, start, budget, early, late, back);
    }
}

/// The selection fails only in front of a draw that no number of moves
/// brings to rest: the limit on the moves of a draw turns away no round that
/// could be drawn.
pub proof fn lemma_failure_is_final(now: u64, count: nat, drawn: nat, budget: nat)
    requires
        0 < count <= usize::MAX,
        1 <= drawn <= WINNER_COUNT,
        spec_select(now, count, (drawn - 1) as nat) is Some,
        spec_select(now, count, drawn) is None,
    ensures
        spec_settle(
            now,
            count,
            spec_select(now, count, (drawn - 1) as nat)->0,
            spec_slot(now, drawn as u64, count),
            budget,
        ) is None,
{
    let taken = spec_select(now, count, (drawn - 1) as nat)->0;
    lemma_select_distinct(now, count, (drawn - 1) as nat);
    // There are never more taken slots than tickets: two different slots do
    // not fit below a count of one.
    if taken.len() > count {
        assert(taken[0] != taken[1]);
    }
    lemma_giving_up_is_final(
        now,
        count,
        taken,
        spec_slot(now, drawn as u64, count),
        count,
        budget,
    );
}

} // verus!
