//! Round orchestration core of a multiplayer crash game: the provably fair
//! outcome derivation, the balance ledger, the round engine and the session
//! coordinator, each with a machine-checked contract.

pub mod routes;
pub mod services;
