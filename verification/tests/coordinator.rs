use crash_server::services::balance_system::{Account, BalanceSystem, DEFAULT_GUEST_BALANCE};
use crash_server::services::crash_game::{CrashGame, GameState, RoundEvent, INITIAL_ROUND_ID};
use crash_server::services::crash_game_math::HouseEdge;
use crash_server::services::game_server::{GameServer, Rejection};
use crash_server::services::game_stats::GameStats;
use crash_server::services::message_types::{
    BetRequest, BettingTimerStarted, BettingTimerUpdate, Connect, CrashOutRequest, Delivery,
    Disconnect, GameEvent, GameFinished, PlayerJoined,
};

const HASH_OF_SEED_ONE: &str = "9b9c831c37bf468beb9d0d97266962639e3a4e14868de741c3be0e5714c21429";
const HASH_OF_SEED_TWO: &str = "63377dae1575d5f68db899517873334dab24dcecafe4d20ecf69dadc3152211b";
const HASH_OF_SEED_THREE: &str = "a98b0bb25a3253c645b3ded18217fb431a72463fcabacbe54a94ab117965d493";

fn server(betting: u32, animation: u32) -> GameServer {
    GameServer::new(
        GameStats::new(),
        CrashGame::with_seed(
            betting,
            HouseEdge { numerator: 7, denominator: 100 },
            animation,
            "seed-one".to_string(),
        ),
        BalanceSystem::new(),
    )
}

fn join(session_id: usize, uuid: &str) -> PlayerJoined {
    PlayerJoined {
        session_id,
        uuid: uuid.to_string(),
        display_name: format!("guest-{}", uuid),
    }
}

fn to(session_id: usize, event: GameEvent) -> Delivery {
    Delivery { session_id, event }
}

fn window(ms: u32, round_id: u32, seed_hash: &str, next_hash: &str) -> GameEvent {
    GameEvent::BettingTimerStarted {
        betting_time_left_ms: ms,
        round_id,
        server_seed_hash: seed_hash.to_string(),
        next_round_server_seed_hash: next_hash.to_string(),
    }
}

/// A and B joined, the window of one second is open.
fn two_players(animation: u32) -> GameServer {
    let mut server = server(1, animation);
    server.handle_player_joined_with_seed(join(1, "A"), "seed-two".to_string());
    server.handle_player_joined_with_seed(join(2, "B"), "unused".to_string());
    server
}

fn tick(server: &mut GameServer, client_seed: &str, next_seed: &str) -> Vec<Delivery> {
    server.handle_tick_with_seeds(client_seed.to_string(), next_seed.to_string())
}

#[test]
fn join_while_idle_opens_the_betting_window() {
    let mut server = server(5, 10);
    let deliveries = server.handle_player_joined_with_seed(join(1, "A"), "seed-two".to_string());
    assert_eq!(
        deliveries,
        vec![
            to(
                1,
                GameEvent::PlayerJoinedResponse {
                    game_state: 0,
                    multiplier: 0,
                    betting_time_left_ms: 0,
                    round_time_elapsed_ms: 0,
                    display_name: "guest-A".to_string(),
                    balance: DEFAULT_GUEST_BALANCE,
                }
            ),
            to(1, window(5000, INITIAL_ROUND_ID + 1, HASH_OF_SEED_ONE, HASH_OF_SEED_TWO)),
        ]
    );
    assert_eq!(server.get_game_data().game_state, GameState::BettingInProgress);
    assert_eq!(server.players_online(), 1);
    assert_eq!(server.peer_count(), 1);
}

#[test]
fn a_second_join_is_told_the_round_and_announced_to_the_first() {
    let mut server = server(5, 10);
    server.handle_player_joined_with_seed(join(1, "A"), "seed-two".to_string());
    tick(&mut server, "x", "y");
    let deliveries = server.handle_player_joined_with_seed(join(2, "B"), "seed-three".to_string());
    assert_eq!(
        deliveries,
        vec![
            to(
                2,
                GameEvent::PlayerJoinedResponse {
                    game_state: 1,
                    multiplier: 0,
                    betting_time_left_ms: 4000,
                    round_time_elapsed_ms: 0,
                    display_name: "guest-B".to_string(),
                    balance: DEFAULT_GUEST_BALANCE,
                }
            ),
            to(
                1,
                GameEvent::RemotePlayerJoined {
                    display_name: "guest-B".to_string(),
                    players_online: 1,
                }
            ),
        ]
    );
    assert_eq!(server.players_online(), 2);
    assert_eq!(server.round_id(), INITIAL_ROUND_ID + 1);
}

#[test]
fn join_with_drawn_seed_opens_a_window() {
    let mut server = server(5, 10);
    let deliveries = server.handle_player_joined(join(1, "A"));
    assert_eq!(deliveries.len(), 2);
    match &deliveries[1].event {
        GameEvent::BettingTimerStarted {
            round_id,
            server_seed_hash,
            next_round_server_seed_hash,
            ..
        } => {
            assert_eq!(*round_id, INITIAL_ROUND_ID + 1);
            assert_eq!(server_seed_hash, HASH_OF_SEED_ONE);
            assert_eq!(next_round_server_seed_hash.len(), 64);
        }
        other => panic!("unexpected {:?}", other),
    }
}

#[test]
fn bet_is_reserved_and_announced_to_the_others() {
    let mut server = two_players(10);
    let deliveries = server.handle_bet_request(BetRequest { session_id: 1, bet_amount: 100 });
    assert_eq!(
        deliveries,
        Ok(vec![to(
            2,
            GameEvent::RemotePlayerBetsPlaced {
                display_name: "guest-A".to_string(),
                bet_amount: 100,
            }
        )])
    );
    assert_eq!(server.bet_amount("A"), Some(100));
    assert_eq!(
        server.account("A"),
        Some(Account { balance: DEFAULT_GUEST_BALANCE, reserved: 100 })
    );
    assert_eq!(server.fetch_balance("A"), DEFAULT_GUEST_BALANCE - 100);
    assert_eq!(server.bet_amount("B"), None);
}

#[test]
fn a_second_bet_in_the_round_is_dropped() {
    let mut server = two_players(10);
    assert!(server.handle_bet_request(BetRequest { session_id: 1, bet_amount: 100 }).is_ok());
    assert_eq!(
        server.handle_bet_request(BetRequest { session_id: 1, bet_amount: 50 }),
        Err(Rejection::AlreadyBet)
    );
    assert_eq!(server.bet_amount("A"), Some(100));
    assert_eq!(
        server.account("A"),
        Some(Account { balance: DEFAULT_GUEST_BALANCE, reserved: 100 })
    );
}

#[test]
fn a_bet_outside_the_window_is_dropped() {
    let mut server = server(1, 10);
    assert_eq!(
        server.handle_bet_request(BetRequest { session_id: 1, bet_amount: 100 }),
        Err(Rejection::UnknownSession)
    );
    server.handle_player_joined_with_seed(join(1, "A"), "seed-two".to_string());
    tick(&mut server, "client-0", "y");
    assert_eq!(server.get_game_data().game_state, GameState::GameInProgress);
    assert_eq!(
        server.handle_bet_request(BetRequest { session_id: 1, bet_amount: 100 }),
        Err(Rejection::NotBetting)
    );
    assert_eq!(server.bet_amount("A"), None);
    assert_eq!(
        server.account("A"),
        Some(Account { balance: DEFAULT_GUEST_BALANCE, reserved: 0 })
    );
}

#[test]
fn a_bet_beyond_the_available_balance_is_dropped() {
    let mut server = two_players(10);
    assert_eq!(
        server.handle_bet_request(BetRequest {
            session_id: 1,
            bet_amount: DEFAULT_GUEST_BALANCE + 1
        }),
        Err(Rejection::InsufficientFunds)
    );
    assert_eq!(server.bet_amount("A"), None);
    assert_eq!(server.fetch_balance("A"), DEFAULT_GUEST_BALANCE);
    assert!(server
        .handle_bet_request(BetRequest { session_id: 1, bet_amount: DEFAULT_GUEST_BALANCE })
        .is_ok());
    assert_eq!(server.fetch_balance("A"), 0);
}

#[test]
fn the_window_closes_and_the_flight_climbs() {
    let mut server = two_players(10);
    let deliveries = tick(&mut server, "client-0", "unused");
    assert_eq!(
        deliveries,
        vec![
            to(1, GameEvent::BettingTimerUpdate { betting_time_left_ms: 0 }),
            to(2, GameEvent::BettingTimerUpdate { betting_time_left_ms: 0 }),
            to(1, GameEvent::GameStarted {}),
            to(2, GameEvent::GameStarted {}),
        ]
    );
    assert_eq!(server.get_game_data().game_state, GameState::GameInProgress);
    let mut last = 100;
    for expected in [118, 136, 155, 173, 192, 210, 228, 247, 265] {
        let deliveries = tick(&mut server, "x", "unused");
        assert_eq!(
            deliveries,
            vec![
                to(1, GameEvent::GameRoundUpdate { multiplier: expected }),
                to(2, GameEvent::GameRoundUpdate { multiplier: expected }),
            ]
        );
        assert!(expected > last);
        last = expected;
    }
}

#[test]
fn cash_out_pays_the_bet_times_the_multiplier() {
    // the crash point of the round is 2.84; a flight of 184 seconds shows
    // 2.50 after 150 of them
    let mut server = two_players(184);
    assert!(server.handle_bet_request(BetRequest { session_id: 1, bet_amount: 100 }).is_ok());
    tick(&mut server, "client-0", "unused");
    for _ in 0..150 {
        tick(&mut server, "x", "unused");
    }
    assert_eq!(server.get_game_data().multiplier, 250);
    let deliveries = server.handle_crash_out_request(CrashOutRequest { session_id: 1 });
    assert_eq!(
        deliveries,
        Ok(vec![
            to(
                1,
                GameEvent::CrashOutResponse {
                    win_amount: 250,
                    multiplier: 250,
                    balance: DEFAULT_GUEST_BALANCE + 250,
                }
            ),
            to(
                2,
                GameEvent::RemotePlayerCrashOut {
                    display_name: "guest-A".to_string(),
                    win_amount: 250,
                }
            ),
        ])
    );
    assert_eq!(server.bet_amount("A"), None);
    assert_eq!(
        server.account("A"),
        Some(Account { balance: DEFAULT_GUEST_BALANCE + 250, reserved: 0 })
    );
    // the bet is gone: a second cash-out is dropped
    assert_eq!(
        server.handle_crash_out_request(CrashOutRequest { session_id: 1 }),
        Err(Rejection::NoActiveBet)
    );
    assert_eq!(server.fetch_balance("A"), DEFAULT_GUEST_BALANCE + 250);
}

#[test]
fn payout_rounds_down_and_is_capped() {
    assert_eq!(GameServer::payout(100, 250), 250);
    assert_eq!(GameServer::payout(1, 199), 1);
    assert_eq!(GameServer::payout(3, 133), 3);
    assert_eq!(GameServer::payout(0, u32::MAX), 0);
    assert_eq!(GameServer::payout(u64::MAX, 100), u64::MAX);
    assert_eq!(GameServer::payout(u64::MAX, 99), 18262276632972456098);
    assert_eq!(GameServer::payout(u64::MAX, 101), u64::MAX);
}

#[test]
fn a_cash_out_outside_the_flight_or_without_a_bet_is_dropped() {
    let mut server = two_players(10);
    assert_eq!(
        server.handle_crash_out_request(CrashOutRequest { session_id: 9 }),
        Err(Rejection::UnknownSession)
    );
    assert!(server.handle_bet_request(BetRequest { session_id: 1, bet_amount: 100 }).is_ok());
    assert_eq!(
        server.handle_crash_out_request(CrashOutRequest { session_id: 1 }),
        Err(Rejection::NotInFlight)
    );
    assert_eq!(server.bet_amount("A"), Some(100));
    tick(&mut server, "client-0", "unused");
    assert_eq!(
        server.handle_crash_out_request(CrashOutRequest { session_id: 2 }),
        Err(Rejection::NoActiveBet)
    );
    assert_eq!(
        server.account("A"),
        Some(Account { balance: DEFAULT_GUEST_BALANCE, reserved: 100 })
    );
    assert_eq!(
        server.account("B"),
        Some(Account { balance: DEFAULT_GUEST_BALANCE, reserved: 0 })
    );
}

#[test]
fn the_flight_ends_and_the_lost_bet_is_debited() {
    let mut server = two_players(2);
    assert!(server.handle_bet_request(BetRequest { session_id: 1, bet_amount: 100 }).is_ok());
    tick(&mut server, "client-0", "unused");
    tick(&mut server, "x", "unused");
    let deliveries = tick(&mut server, "x", "seed-three");
    assert_eq!(
        deliveries,
        vec![
            to(1, GameEvent::GameRoundUpdate { multiplier: 284 }),
            to(2, GameEvent::GameRoundUpdate { multiplier: 284 }),
            to(1, GameEvent::GameFinished {}),
            to(2, GameEvent::GameFinished {}),
            to(1, window(1000, INITIAL_ROUND_ID + 2, HASH_OF_SEED_TWO, HASH_OF_SEED_THREE)),
            to(2, window(1000, INITIAL_ROUND_ID + 2, HASH_OF_SEED_TWO, HASH_OF_SEED_THREE)),
        ]
    );
    assert_eq!(
        server.account("A"),
        Some(Account { balance: DEFAULT_GUEST_BALANCE - 100, reserved: 0 })
    );
    assert_eq!(
        server.account("B"),
        Some(Account { balance: DEFAULT_GUEST_BALANCE, reserved: 0 })
    );
    assert_eq!(server.bet_amount("A"), None);
    assert_eq!(server.get_game_data().game_state, GameState::BettingInProgress);
    // a new round takes a new bet
    assert!(server.handle_bet_request(BetRequest { session_id: 1, bet_amount: 7 }).is_ok());
}

#[test]
fn no_new_window_when_nobody_is_left() {
    let mut server = server(1, 1);
    server.handle_player_joined_with_seed(join(1, "A"), "seed-two".to_string());
    assert!(server.handle_bet_request(BetRequest { session_id: 1, bet_amount: 100 }).is_ok());
    assert_eq!(server.handle_disconnect(Disconnect { session_id: 1 }), Ok(vec![]));
    assert_eq!(server.peer_count(), 0);
    assert_eq!(tick(&mut server, "client-0", "unused"), vec![]);
    assert_eq!(tick(&mut server, "x", "seed-three"), vec![]);
    assert_eq!(server.get_game_data().game_state, GameState::Idle);
    // the bet of the player who left was settled all the same
    assert_eq!(
        server.account("A"),
        Some(Account { balance: DEFAULT_GUEST_BALANCE - 100, reserved: 0 })
    );
    // the next join starts the next round with the seed that was committed to
    let deliveries = server.handle_player_joined_with_seed(join(3, "C"), "seed-three".to_string());
    assert_eq!(
        deliveries[1],
        to(3, window(1000, INITIAL_ROUND_ID + 2, HASH_OF_SEED_TWO, HASH_OF_SEED_THREE))
    );
}

#[test]
fn a_failed_round_is_settled_and_followed_by_a_new_window() {
    let mut server = GameServer::new(
        GameStats::new(),
        CrashGame::with_seed(
            1,
            HouseEdge { numerator: 0, denominator: 100 },
            10,
            "seed-one".to_string(),
        ),
        BalanceSystem::new(),
    );
    server.handle_player_joined_with_seed(join(1, "A"), "seed-two".to_string());
    assert!(server.handle_bet_request(BetRequest { session_id: 1, bet_amount: 100 }).is_ok());
    let deliveries = tick(&mut server, "client-0", "seed-three");
    assert_eq!(
        deliveries,
        vec![
            to(1, GameEvent::BettingTimerUpdate { betting_time_left_ms: 0 }),
            to(1, GameEvent::GameError {}),
            to(1, window(1000, INITIAL_ROUND_ID + 2, HASH_OF_SEED_TWO, HASH_OF_SEED_THREE)),
        ]
    );
    assert_eq!(
        server.account("A"),
        Some(Account { balance: DEFAULT_GUEST_BALANCE - 100, reserved: 0 })
    );
    assert_eq!(server.bet_amount("A"), None);
}

#[test]
fn disconnect_forgets_the_player_and_tells_the_others() {
    let mut server = two_players(10);
    assert_eq!(
        server.handle_disconnect(Disconnect { session_id: 2 }),
        Ok(vec![to(
            1,
            GameEvent::RemotePlayerLeft {
                display_name: "guest-B".to_string(),
                players_online: 2,
            }
        )])
    );
    assert_eq!(server.players_online(), 1);
    assert_eq!(server.peer_count(), 1);
    assert_eq!(
        server.handle_disconnect(Disconnect { session_id: 2 }),
        Err(Rejection::UnknownSession)
    );
    assert_eq!(server.players_online(), 1);
    assert_eq!(
        server.handle_bet_request(BetRequest { session_id: 2, bet_amount: 1 }),
        Err(Rejection::UnknownSession)
    );
    // the account outlives the session
    assert_eq!(server.fetch_balance("B"), DEFAULT_GUEST_BALANCE);
}

#[test]
fn connect_hands_out_an_unused_session() {
    let mut server = two_players(10);
    let mut handed_out = vec![1, 2];
    for _ in 0..5 {
        let id = server.handle_connect(Connect {});
        assert!(!handed_out.contains(&id));
        handed_out.push(id);
        // the identifier is taken from now on
        assert_ne!(server.fresh_session_id(id), id);
    }
}

#[test]
fn connect_counts_on_from_a_taken_candidate() {
    let mut server = two_players(10);
    assert_eq!(server.fresh_session_id(1), 3);
    assert_eq!(server.fresh_session_id(7), 7);
    assert_eq!(server.handle_connect_with_candidate(Connect {}, 1), 3);
    assert_eq!(server.handle_connect_with_candidate(Connect {}, 2), 4);
    assert_eq!(server.handle_connect_with_candidate(Connect {}, 7), 7);
    assert_eq!(server.handle_connect_with_candidate(Connect {}, 7), 8);
    assert_eq!(server.handle_connect_with_candidate(Connect {}, usize::MAX), usize::MAX);
    assert_eq!(server.handle_connect_with_candidate(Connect {}, usize::MAX), 0);
    // a session that has connected and not joined is no player
    assert_eq!(
        server.handle_bet_request(BetRequest { session_id: 3, bet_amount: 1 }),
        Err(Rejection::UnknownSession)
    );
    // its identifier is free again once it is gone
    assert_eq!(
        server.handle_disconnect(Disconnect { session_id: 3 }),
        Err(Rejection::UnknownSession)
    );
    assert_eq!(server.fresh_session_id(1), 3);
    assert_eq!(server.players_online(), 2);
}

#[test]
fn round_events_are_relayed_to_every_peer() {
    let server = two_players(10);
    assert_eq!(
        server.handle_round_event(RoundEvent::BettingUpdate(BettingTimerUpdate {
            betting_time_left_ms: 4000
        })),
        vec![
            to(1, GameEvent::BettingTimerUpdate { betting_time_left_ms: 4000 }),
            to(2, GameEvent::BettingTimerUpdate { betting_time_left_ms: 4000 }),
        ]
    );
    assert_eq!(
        server.handle_round_event(RoundEvent::Finished(GameFinished {})),
        vec![to(1, GameEvent::GameFinished {}), to(2, GameEvent::GameFinished {})]
    );
    assert_eq!(
        server.handle_betting_timer_started(BettingTimerStarted {
            betting_time_left_ms: 1,
            round_id: 2,
            server_seed_hash: "a".to_string(),
            next_round_server_seed_hash: "b".to_string(),
        }),
        vec![to(1, window(1, 2, "a", "b")), to(2, window(1, 2, "a", "b"))]
    );
    assert_eq!(
        server.broadcast(&GameEvent::GameStarted {}, Some("A")),
        vec![to(2, GameEvent::GameStarted {})]
    );
}

#[test]
fn ticks_with_drawn_seeds_run_whole_rounds() {
    let mut server = server(1, 2);
    server.handle_player_joined(join(1, "A"));
    let first_round = server.round_id();
    assert!(server.handle_bet_request(BetRequest { session_id: 1, bet_amount: 100 }).is_ok());
    let mut heard = Vec::new();
    for _ in 0..3 {
        heard.extend(server.handle_tick());
    }
    assert_eq!(server.round_id(), first_round + 1);
    assert_eq!(server.get_game_data().game_state, GameState::BettingInProgress);
    assert_eq!(
        server.account("A"),
        Some(Account { balance: DEFAULT_GUEST_BALANCE - 100, reserved: 0 })
    );
    assert!(heard.iter().any(|d| d.event == GameEvent::GameFinished {}));
    assert!(matches!(heard.last().unwrap().event, GameEvent::BettingTimerStarted { .. }));
}
