//! What sessions, the coordinator and the round engine say to one another.

use vstd::prelude::*;

verus! {

/// A connection asks for a session identifier.
#[derive(Debug, Clone, Copy, PartialEq, Eq, Structural)]
pub struct Connect {}

/// A session is gone.
#[derive(Debug, Clone, Copy, PartialEq, Eq, Structural)]
pub struct Disconnect {
    pub session_id: usize,
}

/// An authenticated player joins through a session. Events for the player
/// are addressed to that session.
#[derive(Debug, PartialEq, Eq)]
pub struct PlayerJoined {
    pub session_id: usize,
    pub uuid: String,
    pub display_name: String,
}

/// A session places a bet.
#[derive(Debug, Clone, Copy, PartialEq, Eq, Structural)]
pub struct BetRequest {
    pub session_id: usize,
    /// in cents
    pub bet_amount: u64,
}

/// A session cashes out.
#[derive(Debug, Clone, Copy, PartialEq, Eq, Structural)]
pub struct CrashOutRequest {
    pub session_id: usize,
}

/// What the coordinator tells a peer.
#[derive(Debug, PartialEq, Eq)]
pub enum GameEvent {
    RemotePlayerJoined { display_name: String, players_online: u32 },
    RemotePlayerLeft { display_name: String, players_online: u32 },
    RemotePlayerBetsPlaced { display_name: String, bet_amount: u64 },
    RemotePlayerCrashOut { display_name: String, win_amount: u64 },
    PlayerJoinedResponse {
        game_state: u8,
        multiplier: u32,
        /// in milliseconds
        betting_time_left_ms: u32,
        /// in milliseconds
        round_time_elapsed_ms: u32,
        display_name: String,
        balance: u64,
    },
    BetResponse { balance: u64 },
    CrashOutResponse { win_amount: u64, multiplier: u32, balance: u64 },
    BettingTimerStarted {
        /// in milliseconds
        betting_time_left_ms: u32,
        round_id: u32,
        server_seed_hash: String,
        next_round_server_seed_hash: String,
    },
    BettingTimerUpdate {
        /// in milliseconds
        betting_time_left_ms: u32,
    },
    GameStarted {},
    GameRoundUpdate { multiplier: u32 },
    GameFinished {},
    GameError {},
}

/// A `GameEvent` with its texts as sequences of characters.
pub enum GameEventView {
    RemotePlayerJoined { display_name: Seq<char>, players_online: u32 },
    RemotePlayerLeft { display_name: Seq<char>, players_online: u32 },
    RemotePlayerBetsPlaced { display_name: Seq<char>, bet_amount: u64 },
    RemotePlayerCrashOut { display_name: Seq<char>, win_amount: u64 },
    PlayerJoinedResponse {
        game_state: u8,
        multiplier: u32,
        betting_time_left_ms: u32,
        round_time_elapsed_ms: u32,
        display_name: Seq<char>,
        balance: u64,
    },
    BetResponse { balance: u64 },
    CrashOutResponse { win_amount: u64, multiplier: u32, balance: u64 },
    BettingTimerStarted {
        betting_time_left_ms: u32,
        round_id: u32,
        server_seed_hash: Seq<char>,
        next_round_server_seed_hash: Seq<char>,
    },
    BettingTimerUpdate { betting_time_left_ms: u32 },
    GameStarted {},
    GameRoundUpdate { multiplier: u32 },
    GameFinished {},
    GameError {},
}

impl View for GameEvent {
    type V = GameEventView;

    open spec fn view(&self) -> GameEventView {
        match *self {
            GameEvent::RemotePlayerJoined { display_name, players_online } => {
                GameEventView::RemotePlayerJoined { display_name: display_name@, players_online }
            },
            GameEvent::RemotePlayerLeft { display_name, players_online } => {
                GameEventView::RemotePlayerLeft { display_name: display_name@, players_online }
            },
            GameEvent::RemotePlayerBetsPlaced { display_name, bet_amount } => {
                GameEventView::RemotePlayerBetsPlaced { display_name: display_name@, bet_amount }
            },
            GameEvent::RemotePlayerCrashOut { display_name, win_amount } => {
                GameEventView::RemotePlayerCrashOut { display_name: display_name@, win_amount }
            },
            GameEvent::PlayerJoinedResponse {
                game_state,
                multiplier,
                betting_time_left_ms,
                round_time_elapsed_ms,
                display_name,
                balance,
            } => GameEventView::PlayerJoinedResponse {
                game_state,
                multiplier,
                betting_time_left_ms,
                round_time_elapsed_ms,
                display_name: display_name@,
                balance,
            },
            GameEvent::BetResponse { balance } => GameEventView::BetResponse { balance },
            GameEvent::CrashOutResponse { win_amount, multiplier, balance } => {
                GameEventView::CrashOutResponse { win_amount, multiplier, balance }
            },
            GameEvent::BettingTimerStarted {
                betting_time_left_ms,
                round_id,
                server_seed_hash,
                next_round_server_seed_hash,
            } => GameEventView::BettingTimerStarted {
                betting_time_left_ms,
                round_id,
                server_seed_hash: server_seed_hash@,
                next_round_server_seed_hash: next_round_server_seed_hash@,
            },
            GameEvent::BettingTimerUpdate { betting_time_left_ms } => {
                GameEventView::BettingTimerUpdate { betting_time_left_ms }
            },
            GameEvent::GameStarted {  } => GameEventView::GameStarted {  },
            GameEvent::GameRoundUpdate { multiplier } => GameEventView::GameRoundUpdate {
                multiplier,
            },
            GameEvent::GameFinished {  } => GameEventView::GameFinished {  },
            GameEvent::GameError {  } => GameEventView::GameError {  },
        }
    }
}

impl GameEvent {
    /// A copy of the event.
    pub fn duplicate(&self) -> (copy: Self)
        ensures
            copy@ == self@,
    {
        match self {
            GameEvent::RemotePlayerJoined { display_name, players_online } => {
                GameEvent::RemotePlayerJoined {
                    display_name: display_name.clone(),
                    players_online: *players_online,
                }
            },
            GameEvent::RemotePlayerLeft { display_name, players_online } => {
                GameEvent::RemotePlayerLeft {
                    display_name: display_name.clone(),
                    players_online: *players_online,
                }
            },
            GameEvent::RemotePlayerBetsPlaced { display_name, bet_amount } => {
                GameEvent::RemotePlayerBetsPlaced {
                    display_name: display_name.clone(),
                    bet_amount: *bet_amount,
                }
            },
            GameEvent::RemotePlayerCrashOut { display_name, win_amount } => {
                GameEvent::RemotePlayerCrashOut {
                    display_name: display_name.clone(),
                    win_amount: *win_amount,
                }
            },
            GameEvent::PlayerJoinedResponse {
                game_state,
                multiplier,
                betting_time_left_ms,
                round_time_elapsed_ms,
                display_name,
                balance,
            } => GameEvent::PlayerJoinedResponse {
                game_state: *game_state,
                multiplier: *multiplier,
                betting_time_left_ms: *betting_time_left_ms,
                round_time_elapsed_ms: *round_time_elapsed_ms,
                display_name: display_name.clone(),
                balance: *balance,
            },
            GameEvent::BetResponse { balance } => GameEvent::BetResponse { balance: *balance },
            GameEvent::CrashOutResponse { win_amount, multiplier, balance } => {
                GameEvent::CrashOutResponse {
                    win_amount: *win_amount,
                    multiplier: *multiplier,
                    balance: *balance,
                }
            },
            GameEvent::BettingTimerStarted {
                betting_time_left_ms,
                round_id,
                server_seed_hash,
                next_round_server_seed_hash,
            } => GameEvent::BettingTimerStarted {
                betting_time_left_ms: *betting_time_left_ms,
                round_id: *round_id,
                server_seed_hash: server_seed_hash.clone(),
                next_round_server_seed_hash: next_round_server_seed_hash.clone(),
            },
            GameEvent::BettingTimerUpdate { betting_time_left_ms } => {
                GameEvent::BettingTimerUpdate { betting_time_left_ms: *betting_time_left_ms }
            },
            GameEvent::GameStarted {  } => GameEvent::GameStarted {  },
            GameEvent::GameRoundUpdate { multiplier } => GameEvent::GameRoundUpdate {
                multiplier: *multiplier,
            },
            GameEvent::GameFinished {  } => GameEvent::GameFinished {  },
            GameEvent::GameError {  } => GameEvent::GameError {  },
        }
    }
}

/// The engine opened a betting window.
#[derive(Debug, PartialEq, Eq)]
pub struct BettingTimerStarted {
    /// in milliseconds
    pub betting_time_left_ms: u32,
    pub round_id: u32,
    pub server_seed_hash: String,
    pub next_round_server_seed_hash: String,
}

/// The betting countdown moved on.
#[derive(Debug, Clone, Copy, PartialEq, Eq, Structural)]
pub struct BettingTimerUpdate {
    /// in milliseconds
    pub betting_time_left_ms: u32,
}

/// The flight began.
#[derive(Debug, Clone, Copy, PartialEq, Eq, Structural)]
pub struct GameStarted {}

/// The displayed multiplier moved on.
#[derive(Debug, Clone, Copy, PartialEq, Eq, Structural)]
pub struct GameRoundUpdate {
    /// in hundredths
    pub multiplier: u32,
}

/// The flight ended at the crash point.
#[derive(Debug, Clone, Copy, PartialEq, Eq, Structural)]
pub struct GameFinished {}

/// No crash point could be derived for the round.
#[derive(Debug, Clone, Copy, PartialEq, Eq, Structural)]
pub struct GameError {}

/// An event addressed to the peer behind one session.
#[derive(Debug, PartialEq, Eq)]
pub struct Delivery {
    pub session_id: usize,
    pub event: GameEvent,
}

/// A `Delivery` with the event as its view.
pub struct DeliveryView {
    pub session_id: usize,
    pub event: GameEventView,
}

impl View for Delivery {
    type V = DeliveryView;

    open spec fn view(&self) -> DeliveryView {
        DeliveryView { session_id: self.session_id, event: self.event@ }
    }
}

} // verus!
