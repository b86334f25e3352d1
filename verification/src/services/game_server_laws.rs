//! What holds of the coordinator across its transitions: the ledger stays
//! solvent, and the books of the round and the ledger agree.

use super::balance_system::{committed, lemma_solvency_is_kept, released, solvent, Ledger};
use super::crash_game::{lemma_displayed_multiplier, STARTING_MULTIPLIER};
use super::game_server::{
    lemma_settling_keeps_solvency, round_over, settle_all, win_amount, ServerView,
};
use super::message_types::{BetRequest, CrashOutRequest, Disconnect, PlayerJoined};
use super::registry::{lemma_lookup_after_push, lemma_lookup_after_remove, position_of};
use vstd::prelude::*;

verus! {

/// What `uuid` has at stake in this round: its bet, or nothing.
pub open spec fn stake_of(state: ServerView, uuid: Seq<char>) -> u64 {
    match state.bet_of(uuid) {
        Some(amount) => amount,
        None => 0,
    }
}

/// The books agree: every bettor has an account, and the reservation of
/// every account is what its player has at stake in this round.
pub open spec fn books_agree(state: ServerView) -> bool {
    &&& forall|i: int|
        0 <= i < state.bet_ids.len() ==> state.ledger.contains_key(#[trigger] state.bet_ids[i])
    &&& forall|uuid: Seq<char>| #[trigger]
        state.ledger.contains_key(uuid) ==> state.ledger[uuid].reserved == stake_of(state, uuid)
}

/// No transition of the coordinator lets an account reserve more than it
/// holds: a solvent ledger stays solvent through every request and every
/// tick.
pub proof fn lemma_transitions_keep_solvency(
    state: ServerView,
    session_id: usize,
    bet: BetRequest,
    crash_out: CrashOutRequest,
    join: PlayerJoined,
    disconnect: Disconnect,
    client_seed: Seq<char>,
    next_seed: Seq<char>,
)
    requires
        solvent(state.ledger),
    ensures
        solvent(state.after_connect(session_id).ledger),
        solvent(state.after_join(join, next_seed).ledger),
        solvent(state.after_bet(bet).ledger),
        solvent(state.after_crash_out(crash_out).ledger),
        solvent(state.after_disconnect(disconnect).ledger),
        solvent(state.after_tick(client_seed, next_seed).ledger),
{
    lemma_solvency_is_kept(state.ledger, join.uuid@, 0);
    if state.bet_verdict(bet) is None {
        lemma_solvency_is_kept(state.ledger, state.uuid_of(bet.session_id).unwrap(), bet.bet_amount);
    }
    if state.crash_out_verdict(crash_out) is None {
        let uuid = state.uuid_of(crash_out.session_id).unwrap();
        lemma_solvency_is_kept(state.ledger, uuid, 0);
        lemma_solvency_is_kept(
            released(state.ledger, uuid),
            uuid,
            win_amount(state.bet_of(uuid).unwrap(), state.round.current_multiplier),
        );
    }
    lemma_settling_keeps_solvency(state.ledger, state.bet_ids, state.bet_ids.len());
}

/// In flight a cash-out pays at least the stake: the multiplier shown is
/// never below 1.00.
pub proof fn lemma_win_covers_the_stake(state: ServerView, bet: u64)
    requires
        state.valid(),
        state.round.phase is GameInProgress,
    ensures
        state.round.current_multiplier >= STARTING_MULTIPLIER,
        win_amount(bet, state.round.current_multiplier) >= bet,
{
    lemma_displayed_multiplier(
        state.round.crash_point,
        state.round.animation_duration,
        state.round.round_time_elapsed,
        state.round.round_time_elapsed,
    );
    let m = state.round.current_multiplier as int;
    assert((bet * m) / 100 >= bet) by (nonlinear_arith)
        requires
            m >= 100,
            bet >= 0,
    ;
}

/// A bet request keeps the books in agreement, whether it is taken or
/// dropped.
pub proof fn lemma_bet_keeps_books(state: ServerView, msg: BetRequest)
    requires
        state.valid(),
        books_agree(state),
    ensures
        books_agree(state.after_bet(msg)),
{
    if state.bet_verdict(msg) is None {
        let uuid = state.uuid_of(msg.session_id).unwrap();
        let after = state.after_bet(msg);
        assert forall|i: int| 0 <= i < after.bet_ids.len() implies after.ledger.contains_key(
            #[trigger] after.bet_ids[i],
        ) by {
            if i < state.bet_ids.len() {
                assert(state.ledger.contains_key(state.bet_ids[i]));
            }
        }
        assert forall|other: Seq<char>| #[trigger]
            after.ledger.contains_key(other) implies after.ledger[other].reserved == stake_of(
            after,
            other,
        ) by {
            lemma_lookup_after_push(
                state.bet_ids,
                state.bet_amounts,
                uuid,
                msg.bet_amount,
                other,
            );
            if other != uuid {
                assert(state.ledger.contains_key(other));
            }
        }
    }
}

/// A cash-out request keeps the books in agreement, whether it is taken or
/// dropped.
pub proof fn lemma_crash_out_keeps_books(state: ServerView, msg: CrashOutRequest)
    requires
        state.valid(),
        books_agree(state),
    ensures
        books_agree(state.after_crash_out(msg)),
{
    if state.crash_out_verdict(msg) is None {
        let uuid = state.uuid_of(msg.session_id).unwrap();
        let after = state.after_crash_out(msg);
        let at = position_of(state.bet_ids, uuid).unwrap();
        assert(state.ledger.contains_key(state.bet_ids[at]));
        assert forall|i: int| 0 <= i < after.bet_ids.len() implies after.ledger.contains_key(
            #[trigger] after.bet_ids[i],
        ) by {
            let i0 = if i < at {
                i
            } else {
                i + 1
            };
            assert(state.ledger.contains_key(state.bet_ids[i0]));
        }
        assert forall|other: Seq<char>| #[trigger]
            after.ledger.contains_key(other) implies after.ledger[other].reserved == stake_of(
            after,
            other,
        ) by {
            lemma_lookup_after_remove(state.bet_ids, state.bet_amounts, uuid, other);
            assert(state.ledger.contains_key(other));
        }
    }
}

/// A join keeps the books in agreement.
pub proof fn lemma_join_keeps_books(state: ServerView, msg: PlayerJoined, next_seed: Seq<char>)
    requires
        state.valid(),
        books_agree(state),
    ensures
        books_agree(state.after_join(msg, next_seed)),
{
    let after = state.after_join(msg, next_seed);
    assert(after.bet_ids == state.bet_ids);
    assert(after.bet_amounts == state.bet_amounts);
    assert forall|i: int| 0 <= i < after.bet_ids.len() implies after.ledger.contains_key(
        #[trigger] after.bet_ids[i],
    ) by {
        assert(state.ledger.contains_key(state.bet_ids[i]));
    }
    assert forall|other: Seq<char>| #[trigger]
        after.ledger.contains_key(other) implies after.ledger[other].reserved == stake_of(
        after,
        other,
    ) by {
        assert(stake_of(after, other) == stake_of(state, other));
        if state.ledger.contains_key(other) {
        } else {
            assert(other == msg.uuid@);
            if position_of(state.bet_ids, other) is Some {
                let i = position_of(state.bet_ids, other).unwrap();
                assert(state.ledger.contains_key(state.bet_ids[i]));
            }
        }
    }
}

/// A disconnect keeps the books in agreement: the bet of a player who left
/// stays until the round is settled.
pub proof fn lemma_disconnect_keeps_books(state: ServerView, msg: Disconnect)
    requires
        books_agree(state),
    ensures
        books_agree(state.after_disconnect(msg)),
{
    let after = state.after_disconnect(msg);
    assert forall|i: int| 0 <= i < after.bet_ids.len() implies after.ledger.contains_key(
        #[trigger] after.bet_ids[i],
    ) by {
        assert(state.ledger.contains_key(state.bet_ids[i]));
    }
    assert forall|other: Seq<char>| #[trigger]
        after.ledger.contains_key(other) implies after.ledger[other].reserved == stake_of(
        after,
        other,
    ) by {
        assert(stake_of(after, other) == stake_of(state, other));
        assert(state.ledger.contains_key(other));
    }
}

/// Settling the first `n` bets keeps every account, clears the
/// reservations of those bettors, and leaves the other reservations as they
/// were.
pub proof fn lemma_settled_reservations(ledger: Ledger, bet_ids: Seq<Seq<char>>, n: nat)
    requires
        n <= bet_ids.len(),
    ensures
        settle_all(ledger, bet_ids, n).dom() == ledger.dom(),
        forall|uuid: Seq<char>| #[trigger]
            ledger.contains_key(uuid) ==> settle_all(ledger, bet_ids, n)[uuid].reserved == if (
            exists|j: int| 0 <= j < n && bet_ids[j] == uuid) {
                0
            } else {
                ledger[uuid].reserved
            },
    decreases n,
{
    if n > 0 {
        let before = settle_all(ledger, bet_ids, (n - 1) as nat);
        let last = bet_ids[n - 1];
        lemma_settled_reservations(ledger, bet_ids, (n - 1) as nat);
        assert(committed(before, last).dom() =~= before.dom());
        assert forall|uuid: Seq<char>| #[trigger] ledger.contains_key(uuid) implies settle_all(
            ledger,
            bet_ids,
            n,
        )[uuid].reserved == if (exists|j: int| 0 <= j < n && bet_ids[j] == uuid) {
            0
        } else {
            ledger[uuid].reserved
        } by {
            assert(before.contains_key(uuid));
            if uuid == last {
                assert(bet_ids[n - 1] == uuid);
            } else {
                if exists|j: int| 0 <= j < n - 1 && bet_ids[j] == uuid {
                    let j = choose|j: int| 0 <= j < n - 1 && bet_ids[j] == uuid;
                    assert(0 <= j < n && bet_ids[j] == uuid);
                } else {
                    if exists|j: int| 0 <= j < n && bet_ids[j] == uuid {
                        let j = choose|j: int| 0 <= j < n && bet_ids[j] == uuid;
                        assert(j < n - 1);
                    }
                }
            }
        }
    } else {
        assert(settle_all(ledger, bet_ids, n).dom() =~= ledger.dom());
    }
}

/// Settling a round keeps the books in agreement: every reservation is zero
/// and no bet is left.
pub proof fn lemma_round_over_keeps_books(state: ServerView, next_seed: Seq<char>)
    requires
        books_agree(state),
    ensures
        books_agree(state.after_round_over(next_seed)),
        state.after_round_over(next_seed).bet_ids.len() == 0,
        forall|uuid: Seq<char>| #[trigger]
            state.ledger.contains_key(uuid) ==> state.after_round_over(
                next_seed,
            ).ledger[uuid].reserved == 0,
{
    let after = state.after_round_over(next_seed);
    lemma_settled_reservations(state.ledger, state.bet_ids, state.bet_ids.len());
    assert(after.ledger == settle_all(state.ledger, state.bet_ids, state.bet_ids.len()));
    assert forall|uuid: Seq<char>| #[trigger] state.ledger.contains_key(uuid) implies
        after.ledger[uuid].reserved == 0 by {
        if exists|j: int| 0 <= j < state.bet_ids.len() && state.bet_ids[j] == uuid {
        } else {
            assert(position_of(state.bet_ids, uuid) is None);
            assert(stake_of(state, uuid) == 0);
        }
    }
    assert forall|uuid: Seq<char>| #[trigger] after.ledger.contains_key(uuid) implies
        after.ledger[uuid].reserved == stake_of(after, uuid) by {
        assert(state.ledger.dom().contains(uuid));
        assert(state.ledger.contains_key(uuid));
        assert(position_of(after.bet_ids, uuid) is None);
    }
}

/// A tick keeps the books in agreement: while a round is under way nothing
/// in them moves, and when it is over it is settled.
pub proof fn lemma_tick_keeps_books(
    state: ServerView,
    client_seed: Seq<char>,
    next_seed: Seq<char>,
)
    requires
        books_agree(state),
    ensures
        books_agree(state.after_tick(client_seed, next_seed)),
{
    let ticked = state.ticked(client_seed);
    assert forall|i: int| 0 <= i < ticked.bet_ids.len() implies ticked.ledger.contains_key(
        #[trigger] ticked.bet_ids[i],
    ) by {
        assert(state.ledger.contains_key(state.bet_ids[i]));
    }
    assert forall|other: Seq<char>| #[trigger]
        ticked.ledger.contains_key(other) implies ticked.ledger[other].reserved == stake_of(
        ticked,
        other,
    ) by {
        assert(stake_of(ticked, other) == stake_of(state, other));
        assert(state.ledger.contains_key(other));
    }
    if round_over(state.round.tick_events(client_seed)) {
        lemma_round_over_keeps_books(ticked, next_seed);
    }
}

} // verus!
