pub mod balance_system;
pub mod crash_game;
pub mod crash_game_math;
pub mod digest;
pub mod game_server;
pub mod game_server_laws;
pub mod game_stats;
pub mod message_types;
pub mod peer;
pub mod random;
pub mod registry;
