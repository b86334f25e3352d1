//! The session coordinator. It owns the peer registry, the bets of the round,
//! the round engine and the ledger, and handles one message at a time: each
//! handler changes the state and says which events go to which sessions.

use super::balance_system::{
    available, can_reserve, committed, credited, released, reserved_for, solvent, with_account,
    lemma_solvency_is_kept, Account, BalanceSystem, Ledger,
};
use super::crash_game::{CrashGame, GameData, GameState, RoundEvent, RoundView};
use super::crash_game_math::CrashGameMath;
use super::game_server_laws::{
    books_agree, lemma_bet_keeps_books, lemma_crash_out_keeps_books, lemma_disconnect_keeps_books,
    lemma_join_keeps_books, lemma_round_over_keeps_books, lemma_tick_keeps_books,
};
use super::game_stats::{one_fewer, one_more, GameStats};
use super::message_types::{
    BetRequest, BettingTimerStarted, Connect, CrashOutRequest, Delivery, DeliveryView, Disconnect,
    GameEvent, GameEventView, PlayerJoined,
};
use super::random::random_usize;
use super::registry::{
    distinct_keys, keys_with, keys_without, lemma_removed_key_is_gone, lemma_stored_key_is_found,
    lookup, position_of, values_with, values_without, Registry,
};
use std::collections::HashMap;
use vstd::prelude::*;

verus! {

broadcast use vstd::std_specs::hash::group_hash_axioms;

/// What the coordinator keeps of a joined player.
pub struct PeerInfo {
    pub display_name: String,
    /// the session that events for the player go to
    pub session_id: usize,
}

/// Why a request was dropped.
#[derive(Debug, Clone, Copy, PartialEq, Eq, Structural)]
pub enum Rejection {
    /// The session has not joined, or is gone.
    UnknownSession,
    /// A bet came while no bets are taken.
    NotBetting,
    /// The player has a bet in this round.
    AlreadyBet,
    /// The player has less available than the bet.
    InsufficientFunds,
    /// A cash-out came while no flight is under way.
    NotInFlight,
    /// The player has no bet to cash out.
    NoActiveBet,
}

/// The state of the coordinator.
pub struct ServerView {
    /// the joined players, in the order in which they first joined
    pub peer_ids: Seq<Seq<char>>,
    /// what is kept of each, at the position of its identifier
    pub peer_infos: Seq<PeerInfo>,
    /// the sessions that hold an identifier, each with its player once it
    /// has joined
    pub sessions: Map<usize, Option<String>>,
    /// the players with a bet in this round, in the order of their bets
    pub bet_ids: Seq<Seq<char>>,
    /// the amount of each bet, at the position of its player
    pub bet_amounts: Seq<u64>,
    pub players_online: u32,
    pub round: RoundView,
    pub ledger: Ledger,
}

/// The deliveries as they are seen in contracts.
pub open spec fn views(deliveries: Seq<Delivery>) -> Seq<DeliveryView> {
    Seq::new(deliveries.len(), |i: int| deliveries[i]@)
}

/// `event` for each of the first `n` peers but the excluded one, in order.
pub open spec fn fan_out(
    peer_ids: Seq<Seq<char>>,
    peer_infos: Seq<PeerInfo>,
    event: GameEventView,
    exclude: Option<Seq<char>>,
    n: nat,
) -> Seq<DeliveryView>
    decreases n,
{
    if n == 0 {
        Seq::empty()
    } else {
        let before = fan_out(peer_ids, peer_infos, event, exclude, (n - 1) as nat);
        if exclude == Some(peer_ids[n - 1]) {
            before
        } else {
            before.push(DeliveryView { session_id: peer_infos[n - 1].session_id, event })
        }
    }
}

/// What a player wins who cashes out `bet` at `multiplier` hundredths:
/// the product in hundredths, rounded down and capped at 64 bits.
pub open spec fn win_amount(bet: u64, multiplier: u32) -> u64 {
    if (bet * multiplier) / 100 > u64::MAX {
        u64::MAX
    } else {
        ((bet * multiplier) / 100) as u64
    }
}

impl ServerView {
    /// What holds of every coordinator state: one record per peer and one
    /// amount per bet, no player twice among the peers or among the bets, and
    /// a valid engine.
    pub open spec fn valid(self) -> bool {
        &&& self.peer_ids.len() == self.peer_infos.len()
        &&& distinct_keys(self.peer_ids)
        &&& self.bet_ids.len() == self.bet_amounts.len()
        &&& distinct_keys(self.bet_ids)
        &&& self.round.valid()
    }

    /// `event` for every peer but the excluded one.
    pub open spec fn broadcast(self, event: GameEventView, exclude: Option<Seq<char>>) -> Seq<
        DeliveryView,
    > {
        fan_out(self.peer_ids, self.peer_infos, event, exclude, self.peer_ids.len())
    }

    /// The player behind a session, once the session has joined.
    pub open spec fn uuid_of(self, session_id: usize) -> Option<Seq<char>> {
        if self.sessions.contains_key(session_id) {
            match self.sessions[session_id] {
                Some(uuid) => Some(uuid@),
                None => None,
            }
        } else {
            None
        }
    }

    /// The state after a connection was handed `session_id`.
    pub open spec fn after_connect(self, session_id: usize) -> ServerView {
        ServerView { sessions: self.sessions.insert(session_id, None), ..self }
    }

    /// The bet of a player in this round.
    pub open spec fn bet_of(self, uuid: Seq<char>) -> Option<u64> {
        lookup(self.bet_ids, self.bet_amounts, uuid)
    }

    /// What is kept of a player.
    pub open spec fn peer_of(self, uuid: Seq<char>) -> Option<PeerInfo> {
        lookup(self.peer_ids, self.peer_infos, uuid)
    }

    /// Why a bet is dropped; `None` where it is taken. A bet is taken from a
    /// joined session, while bets are taken, from a player without a bet in
    /// this round who has the amount available.
    pub open spec fn bet_verdict(self, msg: BetRequest) -> Option<Rejection> {
        match self.uuid_of(msg.session_id) {
            None => Some(Rejection::UnknownSession),
            Some(uuid) => {
                if !(self.round.phase is BettingInProgress) {
                    Some(Rejection::NotBetting)
                } else if self.bet_of(uuid) is Some {
                    Some(Rejection::AlreadyBet)
                } else if !can_reserve(self.ledger, uuid, msg.bet_amount) {
                    Some(Rejection::InsufficientFunds)
                } else {
                    None
                }
            },
        }
    }

    /// The state after a bet request: with the bet recorded and its amount
    /// reserved where the bet is taken, unchanged where it is dropped.
    pub open spec fn after_bet(self, msg: BetRequest) -> ServerView {
        if self.bet_verdict(msg) is None {
            let uuid = self.uuid_of(msg.session_id).unwrap();
            ServerView {
                bet_ids: self.bet_ids.push(uuid),
                bet_amounts: self.bet_amounts.push(msg.bet_amount),
                ledger: reserved_for(self.ledger, uuid, msg.bet_amount),
                ..self
            }
        } else {
            self
        }
    }

    /// Who hears of a bet that is taken: every peer but the bettor.
    pub open spec fn bet_deliveries(self, msg: BetRequest) -> Seq<DeliveryView> {
        let uuid = self.uuid_of(msg.session_id).unwrap();
        match self.peer_of(uuid) {
            Some(peer) => self.broadcast(
                GameEventView::RemotePlayerBetsPlaced {
                    display_name: peer.display_name@,
                    bet_amount: msg.bet_amount,
                },
                Some(uuid),
            ),
            None => Seq::empty(),
        }
    }

    /// Why a cash-out is dropped; `None` where it is taken. A cash-out is
    /// taken from a joined session, in flight, from a player with a bet.
    pub open spec fn crash_out_verdict(self, msg: CrashOutRequest) -> Option<Rejection> {
        match self.uuid_of(msg.session_id) {
            None => Some(Rejection::UnknownSession),
            Some(uuid) => {
                if !(self.round.phase is GameInProgress) {
                    Some(Rejection::NotInFlight)
                } else if self.bet_of(uuid) is None {
                    Some(Rejection::NoActiveBet)
                } else {
                    None
                }
            },
        }
    }

    /// The ledger after a player cashed out: the reservation is released and
    /// the win is credited.
    pub open spec fn cashed_out_ledger(self, uuid: Seq<char>) -> Ledger {
        credited(
            released(self.ledger, uuid),
            uuid,
            win_amount(self.bet_of(uuid).unwrap(), self.round.current_multiplier),
        )
    }

    /// The state after a cash-out request: without the bet, and with the
    /// win in the ledger, where the cash-out is taken; unchanged where it is
    /// dropped.
    pub open spec fn after_crash_out(self, msg: CrashOutRequest) -> ServerView {
        if self.crash_out_verdict(msg) is None {
            let uuid = self.uuid_of(msg.session_id).unwrap();
            ServerView {
                bet_ids: keys_without(self.bet_ids, uuid),
                bet_amounts: values_without(self.bet_ids, self.bet_amounts, uuid),
                ledger: self.cashed_out_ledger(uuid),
                ..self
            }
        } else {
            self
        }
    }

    /// Who hears of a cash-out that is taken: the player, of the win, the
    /// multiplier and the new available balance; every other peer, of the
    /// win.
    pub open spec fn crash_out_deliveries(self, msg: CrashOutRequest) -> Seq<DeliveryView> {
        let uuid = self.uuid_of(msg.session_id).unwrap();
        let win = win_amount(self.bet_of(uuid).unwrap(), self.round.current_multiplier);
        match self.peer_of(uuid) {
            Some(peer) => seq![
                DeliveryView {
                    session_id: peer.session_id,
                    event: GameEventView::CrashOutResponse {
                        win_amount: win,
                        multiplier: self.round.current_multiplier,
                        balance: available(self.cashed_out_ledger(uuid), uuid) as u64,
                    },
                },
            ] + self.broadcast(
                GameEventView::RemotePlayerCrashOut {
                    display_name: peer.display_name@,
                    win_amount: win,
                },
                Some(uuid),
            ),
            None => Seq::empty(),
        }
    }

    /// The state after a player joined through a session: the player is
    /// registered under the session, has an account, and is counted; where a
    /// betting window can open, it has, with `next_seed` as the hidden seed of
    /// the round after it.
    pub open spec fn after_join(self, msg: PlayerJoined, next_seed: Seq<char>) -> ServerView {
        let joined = self.joined(msg);
        if self.round.can_start_betting() {
            ServerView { round: self.round.start_betting(next_seed), ..joined }
        } else {
            joined
        }
    }

    /// The state after a player joined, before any betting window opens.
    pub open spec fn joined(self, msg: PlayerJoined) -> ServerView {
        ServerView {
            peer_ids: keys_with(self.peer_ids, msg.uuid@),
            peer_infos: values_with(
                self.peer_ids,
                self.peer_infos,
                msg.uuid@,
                PeerInfo { display_name: msg.display_name, session_id: msg.session_id },
            ),
            sessions: self.sessions.insert(msg.session_id, Some(msg.uuid)),
            players_online: one_more(self.players_online),
            ledger: with_account(self.ledger, msg.uuid@),
            ..self
        }
    }

    /// What the joiner is told of the round and of its balance.
    pub open spec fn join_response(self, msg: PlayerJoined) -> DeliveryView {
        DeliveryView {
            session_id: msg.session_id,
            event: GameEventView::PlayerJoinedResponse {
                game_state: self.round.phase.code_of(),
                multiplier: self.round.current_multiplier,
                betting_time_left_ms: self.round.game_data().betting_time_left_ms,
                round_time_elapsed_ms: self.round.game_data().round_time_elapsed_ms,
                display_name: msg.display_name@,
                balance: available(with_account(self.ledger, msg.uuid@), msg.uuid@) as u64,
            },
        }
    }

    /// Who hears of a join: the joiner, of the round as it stands and of its
    /// balance; every other peer, of the newcomer and of the count of players
    /// before it; and, where a betting window opens, every peer of the
    /// window.
    pub open spec fn join_deliveries(self, msg: PlayerJoined, next_seed: Seq<char>) -> Seq<
        DeliveryView,
    > {
        seq![self.join_response(msg)] + self.joined(msg).broadcast(
            GameEventView::RemotePlayerJoined {
                display_name: msg.display_name@,
                players_online: self.players_online,
            },
            Some(msg.uuid@),
        ) + if self.round.can_start_betting() {
            self.joined(msg).broadcast(
                betting_started_event(self.round.start_betting(next_seed)),
                None,
            )
        } else {
            Seq::empty()
        }
    }

    /// The state after a session went away: its identifier is free again,
    /// and where it had joined, its player is forgotten and counted out.
    pub open spec fn after_disconnect(self, msg: Disconnect) -> ServerView {
        match self.uuid_of(msg.session_id) {
            Some(uuid) => ServerView {
                peer_ids: keys_without(self.peer_ids, uuid),
                peer_infos: values_without(self.peer_ids, self.peer_infos, uuid),
                sessions: self.sessions.remove(msg.session_id),
                players_online: one_fewer(self.players_online),
                ..self
            },
            None => ServerView { sessions: self.sessions.remove(msg.session_id), ..self },
        }
    }

    /// Who hears that a player left: every peer that remains, with the count
    /// of players before the departure.
    pub open spec fn disconnect_deliveries(self, msg: Disconnect) -> Seq<DeliveryView> {
        let uuid = self.uuid_of(msg.session_id).unwrap();
        match self.peer_of(uuid) {
            Some(peer) => self.after_disconnect(msg).broadcast(
                GameEventView::RemotePlayerLeft {
                    display_name: peer.display_name@,
                    players_online: self.players_online,
                },
                Some(uuid),
            ),
            None => Seq::empty(),
        }
    }

    /// The event of each of the first `n` round events, for every peer.
    pub open spec fn relay(self, events: Seq<RoundEvent>, n: nat) -> Seq<DeliveryView>
        decreases n,
    {
        if n == 0 {
            Seq::empty()
        } else {
            self.relay(events, (n - 1) as nat) + self.broadcast(event_of(events[n - 1]), None)
        }
    }

    /// Whether a new betting window opens when a round is over: a peer is
    /// left, and the engine can start.
    pub open spec fn restarts(self) -> bool {
        self.peer_ids.len() > 0 && self.round.can_start_betting()
    }

    /// The state after a round was settled: every bet that was not cashed
    /// out is committed against its account, no bet is left, and a new
    /// betting window is open where one can be.
    pub open spec fn after_round_over(self, next_seed: Seq<char>) -> ServerView {
        let settled = ServerView {
            ledger: settle_all(self.ledger, self.bet_ids, self.bet_ids.len()),
            bet_ids: Seq::empty(),
            bet_amounts: Seq::empty(),
            ..self
        };
        if self.restarts() {
            ServerView { round: self.round.start_betting(next_seed), ..settled }
        } else {
            settled
        }
    }

    /// Who hears of the betting window that opens when a round is over.
    pub open spec fn round_over_deliveries(self, next_seed: Seq<char>) -> Seq<DeliveryView> {
        if self.restarts() {
            self.broadcast(betting_started_event(self.round.start_betting(next_seed)), None)
        } else {
            Seq::empty()
        }
    }

    /// The state with the engine one second on.
    pub open spec fn ticked(self, client_seed: Seq<char>) -> ServerView {
        ServerView { round: self.round.tick(client_seed), ..self }
    }

    /// The state one second later. `client_seed` becomes the round's client
    /// seed where the betting window closes, `next_seed` the hidden seed of
    /// the round to come where a new window opens; neither is read
    /// otherwise.
    pub open spec fn after_tick(self, client_seed: Seq<char>, next_seed: Seq<char>) -> ServerView {
        if round_over(self.round.tick_events(client_seed)) {
            self.ticked(client_seed).after_round_over(next_seed)
        } else {
            self.ticked(client_seed)
        }
    }

    /// What the peers hear for that second: each thing the engine reports,
    /// for every peer, and the new betting window where one opens.
    pub open spec fn tick_deliveries(self, client_seed: Seq<char>, next_seed: Seq<char>) -> Seq<
        DeliveryView,
    > {
        let events = self.round.tick_events(client_seed);
        self.relay(events, events.len()) + if round_over(events) {
            self.ticked(client_seed).round_over_deliveries(next_seed)
        } else {
            Seq::empty()
        }
    }
}

/// The ledger after the first `n` of the bets were committed, in order.
pub open spec fn settle_all(ledger: Ledger, bet_ids: Seq<Seq<char>>, n: nat) -> Ledger
    decreases n,
{
    if n == 0 {
        ledger
    } else {
        committed(settle_all(ledger, bet_ids, (n - 1) as nat), bet_ids[n - 1])
    }
}

/// What the peers are told of a round event.
pub open spec fn event_of(event: RoundEvent) -> GameEventView {
    match event {
        RoundEvent::BettingUpdate(update) => GameEventView::BettingTimerUpdate {
            betting_time_left_ms: update.betting_time_left_ms,
        },
        RoundEvent::Started(_) => GameEventView::GameStarted {  },
        RoundEvent::RoundUpdate(update) => GameEventView::GameRoundUpdate {
            multiplier: update.multiplier,
        },
        RoundEvent::Finished(_) => GameEventView::GameFinished {  },
        RoundEvent::Failed(_) => GameEventView::GameError {  },
    }
}

/// Whether the events end a round.
pub open spec fn round_over(events: Seq<RoundEvent>) -> bool {
    events.len() > 0 && (events.last() is Finished || events.last() is Failed)
}

/// What the peers are told of the betting window that `round` is in.
pub open spec fn betting_started_event(round: RoundView) -> GameEventView {
    GameEventView::BettingTimerStarted {
        betting_time_left_ms: (round.max_betting_time_duration * 1000) as u32,
        round_id: round.round_id,
        server_seed_hash: round.server_seed_hash(),
        next_round_server_seed_hash: round.next_round_server_seed_hash(),
    }
}

/// A bet that comes while no bets are taken is dropped, and nothing
/// changes.
pub proof fn lemma_bet_outside_betting_is_dropped(state: ServerView, msg: BetRequest)
    requires
        !(state.round.phase is BettingInProgress),
    ensures
        state.bet_verdict(msg) is Some,
        state.after_bet(msg) == state,
{
}

/// The second bet of a player in a round is dropped, and nothing changes:
/// the bet and the reservation stay as the first bet left them.
pub proof fn lemma_second_bet_is_dropped(state: ServerView, first: BetRequest, second: BetRequest)
    requires
        state.valid(),
        state.bet_verdict(first) is None,
        state.uuid_of(second.session_id) == state.uuid_of(first.session_id),
    ensures
        state.after_bet(first).bet_verdict(second) == Some(Rejection::AlreadyBet),
        state.after_bet(first).after_bet(second) == state.after_bet(first),
{
    let uuid = state.uuid_of(first.session_id).unwrap();
    lemma_stored_key_is_found(state.bet_ids, uuid);
}

/// A cash-out that comes while no flight is under way, or from a player
/// without a bet, is dropped, and nothing changes.
pub proof fn lemma_crash_out_without_flight_or_bet_is_dropped(
    state: ServerView,
    msg: CrashOutRequest,
)
    requires
        !(state.round.phase is GameInProgress) || (state.uuid_of(msg.session_id) matches Some(uuid)
            && state.bet_of(uuid) is None),
    ensures
        state.crash_out_verdict(msg) is Some,
        state.after_crash_out(msg) == state,
{
}

/// A bet is cashed out once: the second cash-out of a player in a round is
/// dropped, and nothing changes.
pub proof fn lemma_second_crash_out_is_dropped(
    state: ServerView,
    first: CrashOutRequest,
    second: CrashOutRequest,
)
    requires
        state.valid(),
        state.crash_out_verdict(first) is None,
        state.uuid_of(second.session_id) == state.uuid_of(first.session_id),
    ensures
        state.after_crash_out(first).crash_out_verdict(second) == Some(Rejection::NoActiveBet),
        state.after_crash_out(first).after_crash_out(second) == state.after_crash_out(first),
{
    let uuid = state.uuid_of(first.session_id).unwrap();
    lemma_removed_key_is_gone(state.bet_ids, uuid);
}

/// Settling bets keeps a solvent ledger solvent.
pub proof fn lemma_settling_keeps_solvency(ledger: Ledger, bet_ids: Seq<Seq<char>>, n: nat)
    requires
        solvent(ledger),
    ensures
        solvent(settle_all(ledger, bet_ids, n)),
    decreases n,
{
    if n > 0 {
        lemma_settling_keeps_solvency(ledger, bet_ids, (n - 1) as nat);
        lemma_solvency_is_kept(settle_all(ledger, bet_ids, (n - 1) as nat), bet_ids[n - 1], 0);
    }
}

/// Pushing a delivery pushes its view.
proof fn lemma_views_push(deliveries: Seq<Delivery>, delivery: Delivery)
    ensures
        views(deliveries.push(delivery)) == views(deliveries).push(delivery@),
{
    assert(views(deliveries.push(delivery)) =~= views(deliveries).push(delivery@));
}

/// The views of two runs of deliveries, one after the other.
proof fn lemma_views_concat(first: Seq<Delivery>, second: Seq<Delivery>)
    ensures
        views(first + second) == views(first) + views(second),
{
    assert(views(first + second) =~= views(first) + views(second));
}

/// The session coordinator.
pub struct GameServer {
    peers: Registry<PeerInfo>,
    session_to_uuid: HashMap<usize, Option<String>>,
    bet_map: Registry<u64>,
    game_stats: GameStats,
    crash_game: CrashGame,
    balance_system: BalanceSystem,
}

impl View for GameServer {
    type V = ServerView;

    closed spec fn view(&self) -> ServerView {
        ServerView {
            peer_ids: self.peers.keys(),
            peer_infos: self.peers.values(),
            sessions: self.session_to_uuid@,
            bet_ids: self.bet_map.keys(),
            bet_amounts: self.bet_map.values(),
            players_online: self.game_stats.players_online,
            round: self.crash_game@,
            ledger: self.balance_system@,
        }
    }
}

impl GameServer {
    /// A coordinator without peers, sessions or bets, around the given
    /// engine and ledger.
    pub fn new(game_stats: GameStats, crash_game: CrashGame, balance_system: BalanceSystem) -> (server:
        Self)
        ensures
            (forall|uuid: Seq<char>| #[trigger]
                balance_system@.contains_key(uuid) ==> balance_system@[uuid].reserved == 0)
                ==> books_agree(server@),
            server@ == (ServerView {
                peer_ids: Seq::empty(),
                peer_infos: Seq::empty(),
                sessions: Map::empty(),
                bet_ids: Seq::empty(),
                bet_amounts: Seq::empty(),
                players_online: game_stats.players_online,
                round: crash_game@,
                ledger: balance_system@,
            }),
    {
        proof {
            assert(forall|uuid: Seq<char>|
                position_of(Seq::<Seq<char>>::empty(), uuid) is None);
        }
        GameServer {
            peers: Registry::new(),
            session_to_uuid: HashMap::new(),
            bet_map: Registry::new(),
            game_stats,
            crash_game,
            balance_system,
        }
    }

    /// What holds of every coordinator.
    pub fn shape(&self)
        ensures
            self@.valid(),
    {
        self.peers.shape();
        self.bet_map.shape();
        self.crash_game.shape();
    }

    /// `event` for every peer but the excluded one, each addressed to the
    /// session of its peer, in the order in which the peers joined.
    pub fn broadcast(&self, event: &GameEvent, exclude_uuid: Option<&str>) -> (deliveries: Vec<
        Delivery,
    >)
        ensures
            views(deliveries@) == self@.broadcast(
                event@,
                match exclude_uuid {
                    Some(uuid) => Some(uuid@),
                    None => None,
                },
            ),
    {
        let ghost exclude: Option<Seq<char>> = match exclude_uuid {
            Some(uuid) => Some(uuid@),
            None => None,
        };
        let excluded: Option<String> = match exclude_uuid {
            Some(uuid) => Some(uuid.to_owned()),
            None => None,
        };
        let mut deliveries: Vec<Delivery> = Vec::new();
        let n = self.peers.len();
        let mut i: usize = 0;
        assert(views(deliveries@) =~= Seq::<DeliveryView>::empty());
        while i < n
            invariant
                i <= n,
                n == self.peers.keys().len(),
                n == self.peers.values().len(),
                match excluded {
                    Some(uuid) => exclude == Some(uuid@),
                    None => exclude is None,
                },
                views(deliveries@) == fan_out(
                    self.peers.keys(),
                    self.peers.values(),
                    event@,
                    exclude,
                    i as nat,
                ),
            decreases n - i,
        {
            let key = self.peers.key_at(i);
            let skip = match &excluded {
                Some(uuid) => *key == *uuid,
                None => false,
            };
            if !skip {
                let delivery = Delivery {
                    session_id: self.peers.value_at(i).session_id,
                    event: event.duplicate(),
                };
                proof {
                    lemma_views_push(deliveries@, delivery);
                }
                deliveries.push(delivery);
            }
            i = i + 1;
        }
        deliveries
    }

    /// Hands a connection a session identifier that no other session holds,
    /// and keeps it for the session until it disconnects.
    pub fn handle_connect(&mut self, msg: Connect) -> (session_id: usize)
        ensures
            !old(self)@.sessions.contains_key(session_id),
            final(self)@ == old(self)@.after_connect(session_id),
            solvent(old(self)@.ledger) ==> solvent(final(self)@.ledger),
            books_agree(old(self)@) ==> books_agree(final(self)@),
    {
        self.handle_connect_with_candidate(msg, random_usize())
    }

    /// Hands a connection the first free session identifier from
    /// `candidate` on, and keeps it for the session until it disconnects.
    pub fn handle_connect_with_candidate(&mut self, msg: Connect, candidate: usize) -> (session_id:
        usize)
        ensures
            !old(self)@.sessions.contains_key(session_id),
            session_id >= candidate ==> forall|id: usize|
                candidate <= id < session_id ==> old(self)@.sessions.contains_key(id),
            session_id < candidate ==> forall|id: usize|
                id >= candidate || id < session_id ==> old(self)@.sessions.contains_key(id),
            final(self)@ == old(self)@.after_connect(session_id),
            solvent(old(self)@.ledger) ==> solvent(final(self)@.ledger),
            books_agree(old(self)@) ==> books_agree(final(self)@),
    {
        let session_id = self.fresh_session_id(candidate);
        self.session_to_uuid.insert(session_id, None);
        session_id
    }

    /// The first identifier that no session holds, counting up from
    /// `candidate` and on from zero after the largest.
    pub fn fresh_session_id(&self, candidate: usize) -> (session_id: usize)
        ensures
            !self@.sessions.contains_key(session_id),
            session_id >= candidate ==> forall|id: usize|
                candidate <= id < session_id ==> self@.sessions.contains_key(id),
            session_id < candidate ==> forall|id: usize|
                id >= candidate || id < session_id ==> self@.sessions.contains_key(id),
    {
        let mut id = candidate;
        loop
            invariant
                candidate <= id,
                forall|k: usize| candidate <= k < id ==> self.session_to_uuid@.contains_key(k),
            ensures
                forall|k: usize| candidate <= k ==> self.session_to_uuid@.contains_key(k),
            decreases usize::MAX - id,
        {
            if !self.session_to_uuid.contains_key(&id) {
                return id;
            }
            if id == usize::MAX {
                break ;
            }
            id = id + 1;
        }
        let mut low: usize = 0;
        while low < candidate
            invariant
                low <= candidate,
                forall|k: usize| candidate <= k ==> self.session_to_uuid@.contains_key(k),
                forall|k: usize| k < low ==> self.session_to_uuid@.contains_key(k),
            decreases candidate - low,
        {
            if !self.session_to_uuid.contains_key(&low) {
                return low;
            }
            low = low + 1;
        }
        // every identifier is held, yet the sessions can be counted in a `usize`
        let held = self.session_to_uuid.len();
        proof {
            lemma_crowded(self.session_to_uuid@.dom(), (usize::MAX + 1) as nat);
            assert(held >= usize::MAX + 1);
        }
        candidate
    }

    /// The player behind a session, if the session has joined.
    pub fn session_uuid(&self, session_id: usize) -> (uuid: Option<String>)
        ensures
            match uuid {
                Some(u) => self@.uuid_of(session_id) == Some(u@),
                None => self@.uuid_of(session_id) is None,
            },
    {
        match self.session_to_uuid.get(&session_id) {
            Some(Some(uuid)) => Some(uuid.clone()),
            _ => None,
        }
    }

    /// Takes a bet, or drops it.
    ///
    /// A bet is taken from a joined session, while bets are taken, from a
    /// player without a bet in this round who has the amount available. Its
    /// amount is then reserved, the bet is recorded, and every other peer is
    /// told. A dropped bet changes nothing.
    pub fn handle_bet_request(&mut self, msg: BetRequest) -> (outcome: Result<
        Vec<Delivery>,
        Rejection,
    >)
        ensures
            match outcome {
                Ok(deliveries) => old(self)@.bet_verdict(msg) is None && views(deliveries@) == old(self)@.bet_deliveries(msg),
                Err(rejection) => old(self)@.bet_verdict(msg) == Some(rejection) && final(self)@
                    == old(self)@,
            },
            final(self)@ == old(self)@.after_bet(msg),
            solvent(old(self)@.ledger) ==> solvent(final(self)@.ledger),
            books_agree(old(self)@) ==> books_agree(final(self)@),
    {
        self.shape();
        proof {
            if books_agree(self@) {
                lemma_bet_keeps_books(self@, msg);
            }
        }
        let uuid = match self.session_uuid(msg.session_id) {
            Some(uuid) => uuid,
            None => {
                return Err(Rejection::UnknownSession);
            },
        };
        match self.crash_game.get_game_state() {
            GameState::BettingInProgress => {},
            _ => {
                return Err(Rejection::NotBetting);
            },
        }
        if self.bet_map.contains_key(uuid.as_str()) {
            return Err(Rejection::AlreadyBet);
        }
        if !self.balance_system.reserve_bet_amount(uuid.as_str(), msg.bet_amount) {
            return Err(Rejection::InsufficientFunds);
        }
        self.bet_map.insert(uuid.clone(), msg.bet_amount);
        let deliveries = match self.peers.get(uuid.as_str()) {
            Some(peer) => {
                let event = GameEvent::RemotePlayerBetsPlaced {
                    display_name: peer.display_name.clone(),
                    bet_amount: msg.bet_amount,
                };
                self.broadcast(&event, Some(uuid.as_str()))
            },
            None => {
                let none: Vec<Delivery> = Vec::new();
                assert(views(none@) =~= Seq::<DeliveryView>::empty());
                none
            },
        };
        Ok(deliveries)
    }

    /// Computes `win_amount`.
    pub fn payout(bet: u64, multiplier: u32) -> (win: u64)
        ensures
            win == win_amount(bet, multiplier),
    {
        assert(bet * multiplier <= u128::MAX) by (nonlinear_arith)
            requires
                0 <= bet <= u64::MAX,
                0 <= multiplier <= u32::MAX,
        ;
        let product: u128 = (bet as u128) * (multiplier as u128);
        let hundredths: u128 = product / 100;
        if hundredths > u64::MAX as u128 {
            u64::MAX
        } else {
            hundredths as u64
        }
    }

    /// Takes a cash-out, or drops it.
    ///
    /// A cash-out is taken from a joined session, in flight, from a player
    /// with a bet. The player wins the bet times the displayed multiplier: the
    /// reservation is released, the win is credited, and the bet is gone. The
    /// player is told the win, the multiplier and the new available balance,
    /// every other peer the win. A dropped cash-out changes nothing.
    pub fn handle_crash_out_request(&mut self, msg: CrashOutRequest) -> (outcome: Result<
        Vec<Delivery>,
        Rejection,
    >)
        ensures
            match outcome {
                Ok(deliveries) => old(self)@.crash_out_verdict(msg) is None && views(deliveries@)
                    == old(self)@.crash_out_deliveries(msg),
                Err(rejection) => old(self)@.crash_out_verdict(msg) == Some(rejection) && final(self)@ == old(self)@,
            },
            final(self)@ == old(self)@.after_crash_out(msg),
            solvent(old(self)@.ledger) ==> solvent(final(self)@.ledger),
            books_agree(old(self)@) ==> books_agree(final(self)@),
    {
        self.shape();
        proof {
            if books_agree(self@) {
                lemma_crash_out_keeps_books(self@, msg);
            }
        }
        let uuid = match self.session_uuid(msg.session_id) {
            Some(uuid) => uuid,
            None => {
                return Err(Rejection::UnknownSession);
            },
        };
        let game_data = self.crash_game.get_game_data();
        match game_data.game_state {
            GameState::GameInProgress => {},
            _ => {
                return Err(Rejection::NotInFlight);
            },
        }
        let bet_amount = match self.bet_map.remove(uuid.as_str()) {
            Some(bet_amount) => bet_amount,
            None => {
                return Err(Rejection::NoActiveBet);
            },
        };
        let win = Self::payout(bet_amount, game_data.multiplier);
        proof {
            if solvent(self@.ledger) {
                lemma_solvency_is_kept(self@.ledger, uuid@, 0);
                lemma_solvency_is_kept(released(self@.ledger, uuid@), uuid@, win);
            }
        }
        self.balance_system.release_reserved_bet_amount(uuid.as_str());
        let _ = self.balance_system.add(uuid.as_str(), win);
        let balance = self.balance_system.fetch_balance(uuid.as_str());
        let deliveries = match self.peers.get(uuid.as_str()) {
            Some(peer) => {
                let mut deliveries: Vec<Delivery> = Vec::new();
                deliveries.push(
                    Delivery {
                        session_id: peer.session_id,
                        event: GameEvent::CrashOutResponse {
                            win_amount: win,
                            multiplier: game_data.multiplier,
                            balance,
                        },
                    },
                );
                let event = GameEvent::RemotePlayerCrashOut {
                    display_name: peer.display_name.clone(),
                    win_amount: win,
                };
                let mut others = self.broadcast(&event, Some(uuid.as_str()));
                proof {
                    lemma_views_concat(deliveries@, others@);
                    assert(views(deliveries@) =~= seq![deliveries@[0]@]);
                }
                deliveries.append(&mut others);
                deliveries
            },
            None => {
                let none: Vec<Delivery> = Vec::new();
                assert(views(none@) =~= Seq::<DeliveryView>::empty());
                none
            },
        };
        Ok(deliveries)
    }

    /// Registers a player who joined through a session, and opens a betting
    /// window where the engine is idle, with `next_seed` as the hidden seed of
    /// the round after it.
    ///
    /// The player gets an account if it has none, and is told the round as it
    /// stands and its available balance. Every other peer is told of the
    /// newcomer, and every peer of the betting window where one opens.
    pub fn handle_player_joined_with_seed(&mut self, msg: PlayerJoined, next_seed: String) -> (deliveries:
        Vec<Delivery>)
        ensures
            final(self)@ == old(self)@.after_join(msg, next_seed@),
            views(deliveries@) == old(self)@.join_deliveries(msg, next_seed@),
            solvent(old(self)@.ledger) ==> solvent(final(self)@.ledger),
            books_agree(old(self)@) ==> books_agree(final(self)@),
    {
        self.shape();
        proof {
            if books_agree(self@) {
                lemma_join_keeps_books(self@, msg, next_seed@);
            }
        }
        let game_data = self.crash_game.get_game_data();
        self.peers.insert(
            msg.uuid.clone(),
            PeerInfo { display_name: msg.display_name.clone(), session_id: msg.session_id },
        );
        self.session_to_uuid.insert(msg.session_id, Some(msg.uuid.clone()));
        self.balance_system.ensure_balance(msg.uuid.clone());
        let players_online = self.game_stats.player_joined();
        let balance = self.balance_system.fetch_balance(msg.uuid.as_str());
        let mut deliveries: Vec<Delivery> = Vec::new();
        deliveries.push(
            Delivery {
                session_id: msg.session_id,
                event: GameEvent::PlayerJoinedResponse {
                    game_state: game_data.game_state.code(),
                    multiplier: game_data.multiplier,
                    betting_time_left_ms: game_data.betting_time_left_ms,
                    round_time_elapsed_ms: game_data.round_time_elapsed_ms,
                    display_name: msg.display_name.clone(),
                    balance,
                },
            },
        );
        assert(views(deliveries@) =~= seq![old(self)@.join_response(msg)]);
        let event = GameEvent::RemotePlayerJoined {
            display_name: msg.display_name.clone(),
            players_online,
        };
        let mut others = self.broadcast(&event, Some(msg.uuid.as_str()));
        proof {
            lemma_views_concat(deliveries@, others@);
        }
        deliveries.append(&mut others);
        match self.crash_game.start_betting_with_seed(next_seed) {
            Some(started) => {
                let mut all = self.handle_betting_timer_started(started);
                proof {
                    lemma_views_concat(deliveries@, all@);
                }
                deliveries.append(&mut all);
            },
            None => {
                assert(views(deliveries@) + Seq::<DeliveryView>::empty() =~= views(deliveries@));
            },
        }
        deliveries
    }

    /// Registers a player who joined through a session, and opens a betting
    /// window with a fresh hidden seed where the engine is idle.
    pub fn handle_player_joined(&mut self, msg: PlayerJoined) -> (deliveries: Vec<Delivery>)
        ensures
            final(self)@ == old(self)@.after_join(msg, final(self)@.round.next_round_server_seed),
            views(deliveries@) == old(self)@.join_deliveries(
                msg,
                final(self)@.round.next_round_server_seed,
            ),
            solvent(old(self)@.ledger) ==> solvent(final(self)@.ledger),
            books_agree(old(self)@) ==> books_agree(final(self)@),
    {
        self.handle_player_joined_with_seed(msg, CrashGameMath::generate_seed())
    }

    /// Forgets a session that went away, and its player.
    ///
    /// Every peer that remains is told, with the count of players before
    /// the departure. A session that never joined gives up its identifier
    /// and nothing else changes.
    pub fn handle_disconnect(&mut self, msg: Disconnect) -> (outcome: Result<
        Vec<Delivery>,
        Rejection,
    >)
        ensures
            match outcome {
                Ok(deliveries) => old(self)@.uuid_of(msg.session_id) is Some && views(deliveries@)
                    == old(self)@.disconnect_deliveries(msg),
                Err(rejection) => old(self)@.uuid_of(msg.session_id) is None && rejection
                    == Rejection::UnknownSession,
            },
            final(self)@ == old(self)@.after_disconnect(msg),
            solvent(old(self)@.ledger) ==> solvent(final(self)@.ledger),
            books_agree(old(self)@) ==> books_agree(final(self)@),
    {
        proof {
            if books_agree(self@) {
                lemma_disconnect_keeps_books(self@, msg);
            }
        }
        let uuid = match self.session_to_uuid.remove(&msg.session_id) {
            Some(Some(uuid)) => uuid,
            _ => {
                return Err(Rejection::UnknownSession);
            },
        };
        let players_online = self.game_stats.player_left();
        let deliveries = match self.peers.remove(uuid.as_str()) {
            Some(peer) => {
                let event = GameEvent::RemotePlayerLeft {
                    display_name: peer.display_name,
                    players_online,
                };
                self.broadcast(&event, Some(uuid.as_str()))
            },
            None => {
                let none: Vec<Delivery> = Vec::new();
                assert(views(none@) =~= Seq::<DeliveryView>::empty());
                none
            },
        };
        Ok(deliveries)
    }

    /// Tells every peer of a betting window that opened.
    pub fn handle_betting_timer_started(&self, msg: BettingTimerStarted) -> (deliveries: Vec<
        Delivery,
    >)
        ensures
            views(deliveries@) == self@.broadcast(
                GameEventView::BettingTimerStarted {
                    betting_time_left_ms: msg.betting_time_left_ms,
                    round_id: msg.round_id,
                    server_seed_hash: msg.server_seed_hash@,
                    next_round_server_seed_hash: msg.next_round_server_seed_hash@,
                },
                None,
            ),
    {
        let event = GameEvent::BettingTimerStarted {
            betting_time_left_ms: msg.betting_time_left_ms,
            round_id: msg.round_id,
            server_seed_hash: msg.server_seed_hash,
            next_round_server_seed_hash: msg.next_round_server_seed_hash,
        };
        self.broadcast(&event, None)
    }

    /// Tells every peer what the engine reported.
    pub fn handle_round_event(&self, event: RoundEvent) -> (deliveries: Vec<Delivery>)
        ensures
            views(deliveries@) == self@.broadcast(event_of(event), None),
    {
        let told = match event {
            RoundEvent::BettingUpdate(update) => GameEvent::BettingTimerUpdate {
                betting_time_left_ms: update.betting_time_left_ms,
            },
            RoundEvent::Started(_) => GameEvent::GameStarted {  },
            RoundEvent::RoundUpdate(update) => GameEvent::GameRoundUpdate {
                multiplier: update.multiplier,
            },
            RoundEvent::Finished(_) => GameEvent::GameFinished {  },
            RoundEvent::Failed(_) => GameEvent::GameError {  },
        };
        self.broadcast(&told, None)
    }

    /// Settles a round that is over: every bet that was not cashed out is
    /// committed against its account, and no bet is left. Where a peer is
    /// left and the engine can start, a betting window opens, with `next_seed`
    /// as the hidden seed of the round after it, and every peer is told.
    pub fn handle_round_over(&mut self, next_seed: String) -> (deliveries: Vec<Delivery>)
        ensures
            final(self)@ == old(self)@.after_round_over(next_seed@),
            views(deliveries@) == old(self)@.round_over_deliveries(next_seed@),
            solvent(old(self)@.ledger) ==> solvent(final(self)@.ledger),
            books_agree(old(self)@) ==> books_agree(final(self)@),
    {
        proof {
            if books_agree(self@) {
                lemma_round_over_keeps_books(self@, next_seed@);
            }
        }
        let n = self.bet_map.len();
        let mut i: usize = 0;
        while i < n
            invariant
                i <= n,
                n == self.bet_map.keys().len(),
                self@ == (ServerView {
                    ledger: settle_all(old(self)@.ledger, old(self)@.bet_ids, i as nat),
                    ..old(self)@
                }),
            decreases n - i,
        {
            self.balance_system.commit_reserved_bet_amount(self.bet_map.key_at(i).as_str());
            i = i + 1;
        }
        self.bet_map.clear();
        proof {
            if solvent(old(self)@.ledger) {
                lemma_settling_keeps_solvency(old(self)@.ledger, old(self)@.bet_ids, n as nat);
            }
        }
        if self.peers.len() > 0 {
            match self.crash_game.start_betting_with_seed(next_seed) {
                Some(started) => {
                    return self.handle_betting_timer_started(started);
                },
                None => {},
            }
        }
        let none: Vec<Delivery> = Vec::new();
        assert(views(none@) =~= Seq::<DeliveryView>::empty());
        none
    }

    /// Moves the round on by one second.
    ///
    /// Every peer is told what the engine reports. Where the round is over,
    /// by its end or by its failure, it is settled, and a new betting window
    /// opens where a peer is left. `client_seed` becomes the round's client
    /// seed where the betting window closes, `next_seed` the hidden seed of
    /// the round to come where a new window opens; neither is read
    /// otherwise.
    pub fn handle_tick_with_seeds(&mut self, client_seed: String, next_seed: String) -> (deliveries:
        Vec<Delivery>)
        ensures
            final(self)@ == old(self)@.after_tick(client_seed@, next_seed@),
            views(deliveries@) == old(self)@.tick_deliveries(client_seed@, next_seed@),
            solvent(old(self)@.ledger) ==> solvent(final(self)@.ledger),
            books_agree(old(self)@) ==> books_agree(final(self)@),
    {
        proof {
            if books_agree(self@) {
                lemma_tick_keeps_books(self@, client_seed@, next_seed@);
            }
        }
        let events = self.crash_game.tick_with_client_seed(client_seed);
        let mut deliveries: Vec<Delivery> = Vec::new();
        assert(views(deliveries@) =~= Seq::<DeliveryView>::empty());
        let mut over = false;
        let n = events.len();
        let mut i: usize = 0;
        while i < n
            invariant
                i <= n,
                n == events@.len(),
                self@ == old(self)@.ticked(client_seed@),
                views(deliveries@) == self@.relay(events@, i as nat),
                over == (i > 0 && (events@[i - 1] is Finished || events@[i - 1] is Failed)),
            decreases n - i,
        {
            let event = events[i];
            let mut told = self.handle_round_event(event);
            proof {
                lemma_views_concat(deliveries@, told@);
            }
            deliveries.append(&mut told);
            over = match event {
                RoundEvent::Finished(_) => true,
                RoundEvent::Failed(_) => true,
                _ => false,
            };
            i = i + 1;
        }
        assert(over == round_over(events@));
        assert(old(self)@.ticked(client_seed@).relay(events@, n as nat) == old(self)@.relay(
            events@,
            n as nat,
        )) by {
            lemma_relay_reads_peers(old(self)@.ticked(client_seed@), old(self)@, events@, n as nat);
        }
        if over {
            let mut opened = self.handle_round_over(next_seed);
            proof {
                lemma_views_concat(deliveries@, opened@);
            }
            deliveries.append(&mut opened);
        } else {
            assert(views(deliveries@) + Seq::<DeliveryView>::empty() =~= views(deliveries@));
        }
        deliveries
    }

    /// Moves the round on by one second, with fresh seeds where seeds are
    /// needed.
    pub fn handle_tick(&mut self) -> (deliveries: Vec<Delivery>)
        ensures
            final(self)@ == old(self)@.after_tick(
                final(self)@.round.client_seed,
                final(self)@.round.next_round_server_seed,
            ),
            views(deliveries@) == old(self)@.tick_deliveries(
                final(self)@.round.client_seed,
                final(self)@.round.next_round_server_seed,
            ),
            solvent(old(self)@.ledger) ==> solvent(final(self)@.ledger),
            books_agree(old(self)@) ==> books_agree(final(self)@),
    {
        let client_seed = if self.crash_game.betting_expires_next() {
            CrashGameMath::generate_seed()
        } else {
            self.crash_game.client_seed_text()
        };
        self.handle_tick_with_seeds(client_seed, CrashGameMath::generate_seed())
    }

    /// What a late joiner is told of the round.
    pub fn get_game_data(&self) -> (data: GameData)
        ensures
            data == self@.round.game_data(),
    {
        self.crash_game.get_game_data()
    }

    /// How many players are counted as online.
    pub fn players_online(&self) -> (count: u32)
        ensures
            count == self@.players_online,
    {
        self.game_stats.players_online
    }

    /// The bet of `uuid` in this round, if it has one.
    pub fn bet_amount(&self, uuid: &str) -> (bet: Option<u64>)
        ensures
            bet == self@.bet_of(uuid@),
    {
        match self.bet_map.get(uuid) {
            Some(amount) => Some(*amount),
            None => None,
        }
    }

    /// The account of `uuid`, if it has one.
    pub fn account(&self, uuid: &str) -> (found: Option<Account>)
        ensures
            match found {
                Some(account) => self@.ledger.contains_key(uuid@) && self@.ledger[uuid@]
                    == account,
                None => !self@.ledger.contains_key(uuid@),
            },
    {
        self.balance_system.account(uuid)
    }

    /// How many players are registered.
    pub fn peer_count(&self) -> (count: usize)
        ensures
            count == self@.peer_ids.len(),
    {
        self.peers.len()
    }

    /// The number of the round that is under way, or of the last one.
    pub fn round_id(&self) -> (round_id: u32)
        ensures
            round_id == self@.round.round_id,
    {
        self.crash_game.get_round_id()
    }

    /// What `uuid` can still wager.
    pub fn fetch_balance(&self, uuid: &str) -> (amount: u64)
        ensures
            amount == available(self@.ledger, uuid@),
    {
        self.balance_system.fetch_balance(uuid)
    }
}

/// A finite set that holds every identifier below `n` has at least `n`
/// elements.
proof fn lemma_crowded(ids: Set<usize>, n: nat)
    requires
        ids.finite(),
        n <= usize::MAX + 1,
        forall|k: usize| k < n ==> ids.contains(k),
    ensures
        ids.len() >= n,
    decreases n,
{
    if n > 0 {
        let last = (n - 1) as usize;
        assert(ids.contains(last));
        lemma_crowded(ids.remove(last), (n - 1) as nat);
    }
}

/// What is relayed depends on the peers alone.
proof fn lemma_relay_reads_peers(a: ServerView, b: ServerView, events: Seq<RoundEvent>, n: nat)
    requires
        a.peer_ids == b.peer_ids,
        a.peer_infos == b.peer_infos,
    ensures
        a.relay(events, n) == b.relay(events, n),
    decreases n,
{
    if n > 0 {
        lemma_relay_reads_peers(a, b, events, (n - 1) as nat);
    }
}

} // verus!
