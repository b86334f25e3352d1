use crash_server::services::crash_game::{
    multiplier_at, CrashGame, GameData, GameState, RoundEvent, RoundResult,
    DEFAULT_ANIMATION_DURATION, INITIAL_ROUND_ID,
};
use crash_server::services::crash_game_math::HouseEdge;
use crash_server::services::message_types::{
    BettingTimerStarted, BettingTimerUpdate, GameError, GameFinished, GameRoundUpdate, GameStarted,
};

const HASH_OF_SEED_ONE: &str = "9b9c831c37bf468beb9d0d97266962639e3a4e14868de741c3be0e5714c21429";
const HASH_OF_SEED_TWO: &str = "63377dae1575d5f68db899517873334dab24dcecafe4d20ecf69dadc3152211b";
const HASH_OF_SEED_THREE: &str = "a98b0bb25a3253c645b3ded18217fb431a72463fcabacbe54a94ab117965d493";

fn engine(betting: u32, animation: u32) -> CrashGame {
    CrashGame::with_seed(
        betting,
        HouseEdge { numerator: 7, denominator: 100 },
        animation,
        "seed-one".to_string(),
    )
}

fn update(ms: u32) -> RoundEvent {
    RoundEvent::BettingUpdate(BettingTimerUpdate { betting_time_left_ms: ms })
}

fn shown(multiplier: u32) -> RoundEvent {
    RoundEvent::RoundUpdate(GameRoundUpdate { multiplier })
}

#[test]
fn a_new_engine_is_idle() {
    let game = engine(3, 10);
    assert_eq!(game.get_game_state(), GameState::Idle);
    assert_eq!(game.get_round_id(), INITIAL_ROUND_ID);
    assert_eq!(
        game.get_game_data(),
        GameData {
            game_state: GameState::Idle,
            multiplier: 0,
            betting_time_left_ms: 0,
            round_time_elapsed_ms: 0,
        }
    );
    assert!(game.can_start_betting_now());
    assert!(!game.betting_expires_next());
}

#[test]
fn new_draws_a_seed_and_uses_the_default_flight_length() {
    let mut game = CrashGame::new(1, HouseEdge::from_percent(7));
    assert_eq!(game.get_game_state(), GameState::Idle);
    let started = game.start_betting_timer().unwrap();
    assert_eq!(started.round_id, INITIAL_ROUND_ID + 1);
    assert_eq!(started.betting_time_left_ms, 1000);
    assert_eq!(started.server_seed_hash.len(), 64);
    assert_ne!(started.server_seed_hash, started.next_round_server_seed_hash);
    let events = game.tick();
    assert_eq!(events, vec![update(0), RoundEvent::Started(GameStarted {})]);
    let mut last = 0;
    for second in 1..=DEFAULT_ANIMATION_DURATION {
        let events = game.tick();
        match events[0] {
            RoundEvent::RoundUpdate(u) => {
                assert!(u.multiplier >= last && u.multiplier >= 100);
                last = u.multiplier;
            }
            _ => panic!("a flight second reports the multiplier first"),
        }
        assert_eq!(events.len(), if second == DEFAULT_ANIMATION_DURATION { 2 } else { 1 });
    }
    assert_eq!(game.get_game_state(), GameState::Idle);
}

#[test]
fn idle_ticks_do_nothing() {
    let mut game = engine(3, 10);
    assert_eq!(game.tick_with_client_seed("x".to_string()), vec![]);
    assert_eq!(game.tick(), vec![]);
    assert_eq!(game.get_game_state(), GameState::Idle);
}

#[test]
fn betting_window_announces_round_and_hashes() {
    let mut game = engine(3, 10);
    let started = game.start_betting_with_seed("seed-two".to_string());
    assert_eq!(
        started,
        Some(BettingTimerStarted {
            betting_time_left_ms: 3000,
            round_id: INITIAL_ROUND_ID + 1,
            server_seed_hash: HASH_OF_SEED_ONE.to_string(),
            next_round_server_seed_hash: HASH_OF_SEED_TWO.to_string(),
        })
    );
    assert_eq!(
        game.get_game_data(),
        GameData {
            game_state: GameState::BettingInProgress,
            multiplier: 0,
            betting_time_left_ms: 3000,
            round_time_elapsed_ms: 0,
        }
    );
}

#[test]
fn betting_window_opens_only_from_idle() {
    let mut game = engine(3, 10);
    assert!(game.start_betting_with_seed("seed-two".to_string()).is_some());
    assert_eq!(game.start_betting_with_seed("seed-three".to_string()), None);
    assert_eq!(game.start_betting_timer(), None);
    assert_eq!(game.get_round_id(), INITIAL_ROUND_ID + 1);
    assert_eq!(game.get_game_state(), GameState::BettingInProgress);
}

#[test]
fn countdown_then_flight_then_idle() {
    let mut game = engine(3, 10);
    game.start_betting_with_seed("seed-two".to_string());
    assert_eq!(game.tick_with_client_seed("unused".to_string()), vec![update(2000)]);
    assert_eq!(game.tick_with_client_seed("unused".to_string()), vec![update(1000)]);
    assert!(game.betting_expires_next());
    assert_eq!(
        game.tick_with_client_seed("client-0".to_string()),
        vec![update(0), RoundEvent::Started(GameStarted {})]
    );
    assert_eq!(
        game.get_game_data(),
        GameData {
            game_state: GameState::GameInProgress,
            multiplier: 100,
            betting_time_left_ms: 0,
            round_time_elapsed_ms: 0,
        }
    );
    assert_eq!(
        game.get_round_result(),
        Some(RoundResult { multiplier: 284, animation_duration: 10 })
    );
    let expected = [118, 136, 155, 173, 192, 210, 228, 247, 265];
    for (second, multiplier) in expected.iter().enumerate() {
        assert_eq!(game.tick_with_client_seed("ignored".to_string()), vec![shown(*multiplier)]);
        assert_eq!(
            game.get_game_data(),
            GameData {
                game_state: GameState::GameInProgress,
                multiplier: *multiplier,
                betting_time_left_ms: 0,
                round_time_elapsed_ms: (second as u32 + 1) * 1000,
            }
        );
    }
    assert_eq!(
        game.tick_with_client_seed("ignored".to_string()),
        vec![shown(284), RoundEvent::Finished(GameFinished {})]
    );
    assert_eq!(
        game.get_game_data(),
        GameData {
            game_state: GameState::Idle,
            multiplier: 0,
            betting_time_left_ms: 3000,
            round_time_elapsed_ms: 0,
        }
    );
}

#[test]
fn multiplier_sequence_never_falls_and_ends_at_the_crash_point() {
    for crash_point in [100u32, 101, 199, 284, 554, 1648, u32::MAX] {
        for duration in [1u32, 3, 10, 184] {
            assert_eq!(multiplier_at(crash_point, 0, duration), 100);
            assert_eq!(multiplier_at(crash_point, duration, duration), crash_point);
            let mut last = 100;
            for elapsed in 0..=duration {
                let shown = multiplier_at(crash_point, elapsed, duration);
                assert!(last <= shown && shown <= crash_point);
                last = shown;
            }
        }
    }
    assert_eq!(multiplier_at(554, 3, 10), 236);
    assert_eq!(multiplier_at(u32::MAX, 5, 10), 100 + (u32::MAX - 100) / 2);
}

#[test]
fn fairness_chain_links_consecutive_rounds() {
    let mut game = engine(1, 1);
    let first = game.start_betting_with_seed("seed-two".to_string()).unwrap();
    game.tick_with_client_seed("client-0".to_string());
    game.tick_with_client_seed("client-0".to_string());
    assert_eq!(game.get_game_state(), GameState::Idle);
    let second = game.start_betting_with_seed("seed-three".to_string()).unwrap();
    assert_eq!(second.server_seed_hash, first.next_round_server_seed_hash);
    assert_eq!(second.server_seed_hash, HASH_OF_SEED_TWO);
    assert_eq!(second.next_round_server_seed_hash, HASH_OF_SEED_THREE);
    assert_eq!(second.round_id, first.round_id + 1);
    // the second round is derived from the seed that was committed to
    game.tick_with_client_seed("client-b".to_string());
    assert_eq!(
        game.get_round_result(),
        Some(RoundResult { multiplier: 450, animation_duration: 1 })
    );
}

#[test]
fn fairness_chain_with_drawn_seeds() {
    let mut game = CrashGame::new(0, HouseEdge::from_percent(7));
    let first = game.start_betting_timer().unwrap();
    while game.get_game_state() != GameState::Idle {
        game.tick();
    }
    let second = game.start_betting_timer().unwrap();
    assert_eq!(second.server_seed_hash, first.next_round_server_seed_hash);
    assert_eq!(second.round_id, first.round_id + 1);
}

#[test]
fn a_window_of_no_length_closes_on_the_first_tick() {
    let mut game = engine(0, 2);
    let started = game.start_betting_with_seed("seed-two".to_string()).unwrap();
    assert_eq!(started.betting_time_left_ms, 0);
    assert_eq!(
        game.tick_with_client_seed("client-0".to_string()),
        vec![update(0), RoundEvent::Started(GameStarted {})]
    );
    assert_eq!(game.tick_with_client_seed("x".to_string()), vec![shown(192)]);
    assert_eq!(
        game.tick_with_client_seed("x".to_string()),
        vec![shown(284), RoundEvent::Finished(GameFinished {})]
    );
}

#[test]
fn instant_crash_flies_at_one() {
    let mut game = engine(1, 2);
    game.start_betting_with_seed("seed-two".to_string());
    game.tick_with_client_seed("client-7".to_string());
    assert_eq!(
        game.get_round_result(),
        Some(RoundResult { multiplier: 100, animation_duration: 2 })
    );
    assert_eq!(game.tick_with_client_seed("x".to_string()), vec![shown(100)]);
    assert_eq!(
        game.tick_with_client_seed("x".to_string()),
        vec![shown(100), RoundEvent::Finished(GameFinished {})]
    );
}

#[test]
fn a_round_without_house_edge_fails_and_the_engine_is_idle() {
    let mut game = CrashGame::with_seed(
        2,
        HouseEdge { numerator: 0, denominator: 100 },
        10,
        "seed-one".to_string(),
    );
    game.start_betting_with_seed("seed-two".to_string());
    assert_eq!(game.tick_with_client_seed("x".to_string()), vec![update(1000)]);
    assert_eq!(
        game.tick_with_client_seed("client-0".to_string()),
        vec![update(0), RoundEvent::Failed(GameError {})]
    );
    assert_eq!(game.get_game_state(), GameState::Idle);
    assert_eq!(game.get_round_result(), None);
    // the engine can try again
    let again = game.start_betting_with_seed("seed-three".to_string()).unwrap();
    assert_eq!(again.round_id, INITIAL_ROUND_ID + 2);
    assert_eq!(again.server_seed_hash, HASH_OF_SEED_TWO);
}

#[test]
fn phase_codes() {
    assert_eq!(GameState::Idle.code(), 0);
    assert_eq!(GameState::BettingInProgress.code(), 1);
    assert_eq!(GameState::GameInProgress.code(), 2);
}

#[test]
fn phase_converts_into_its_code() {
    let code: u8 = GameState::GameInProgress.into();
    assert_eq!(code, 2);
    assert_eq!(u8::from(GameState::Idle), 0);
}
