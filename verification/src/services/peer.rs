//! What a peer session makes of the requests of its client.

use super::message_types::{BetRequest, CrashOutRequest, PlayerJoined};
use crate::routes::utils::auth_token_extractor::UserAuthentication;
use crate::routes::utils::user_claims::UserClaims;
use vstd::prelude::*;

verus! {

/// A request of a client, decoded.
#[derive(Debug, PartialEq, Eq)]
pub enum ClientData {
    JoinGameRequest { player_uuid: String, jwt_token: String },
    BetRequest {
        /// in cents
        bet_amount: u64,
    },
    CrashOutRequest {},
    Unknown,
}

/// What a session does about a request.
#[derive(Debug, PartialEq, Eq)]
pub enum PeerAction {
    /// Hand the join to the coordinator.
    Join(PlayerJoined),
    /// Hand the bet to the coordinator.
    Bet(BetRequest),
    /// Hand the cash-out to the coordinator.
    CrashOut(CrashOutRequest),
    /// Close the connection: the token does not prove who the player is.
    CloseInvalidToken,
    /// Nothing.
    Ignore,
}

/// What the session `session_id` does about `data`.
///
/// A join is handed on where the token of the request decoded to claims that
/// name the player; otherwise the connection is closed. `claims` is what the
/// token decoded to, and `display_name` the name under which the player
/// is shown; neither is read for other requests. Bets and cash-outs are
/// handed on under the session, and an unknown request is ignored.
pub fn client_action(
    session_id: usize,
    data: ClientData,
    claims: Option<UserClaims>,
    display_name: String,
) -> (action: PeerAction)
    ensures
        match data {
            ClientData::JoinGameRequest { player_uuid, jwt_token } => {
                if claims matches Some(c) && c.uuid@ == player_uuid@ {
                    action matches PeerAction::Join(joined) && joined.session_id == session_id
                        && joined.uuid@ == player_uuid@ && joined.display_name == display_name
                } else {
                    action is CloseInvalidToken
                }
            },
            ClientData::BetRequest { bet_amount } => action == PeerAction::Bet(
                BetRequest { session_id, bet_amount },
            ),
            ClientData::CrashOutRequest {  } => action == PeerAction::CrashOut(
                CrashOutRequest { session_id },
            ),
            ClientData::Unknown => action is Ignore,
        },
{
    match data {
        ClientData::JoinGameRequest { player_uuid, jwt_token } => {
            match UserAuthentication::validate_auth(
                player_uuid.as_str(),
                jwt_token.as_str(),
                claims,
            ) {
                Ok(auth) => PeerAction::Join(
                    PlayerJoined { session_id, uuid: auth.uuid, display_name },
                ),
                Err(_) => PeerAction::CloseInvalidToken,
            }
        },
        ClientData::BetRequest { bet_amount } => PeerAction::Bet(
            BetRequest { session_id, bet_amount },
        ),
        ClientData::CrashOutRequest {  } => PeerAction::CrashOut(CrashOutRequest { session_id }),
        ClientData::Unknown => PeerAction::Ignore,
    }
}

} // verus!
