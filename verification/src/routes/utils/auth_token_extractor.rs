//! Whether a token that was decoded belongs to the player who presents it.

use super::user_claims::UserClaims;
use vstd::prelude::*;

verus! {

/// A player and the token that proves who it is.
#[derive(Debug, PartialEq, Eq)]
pub struct UserAuthentication {
    pub authentication_token: String,
    pub uuid: String,
}

impl UserAuthentication {
    /// Accepts `jwt_token` for `uuid` where the token decoded to claims and
    /// the claims name that player; `claims` is `None` where the token did
    /// not decode or has expired.
    pub fn validate_auth(uuid: &str, jwt_token: &str, claims: Option<UserClaims>) -> (outcome:
        Result<UserAuthentication, ()>)
        ensures
            outcome is Ok <==> (claims matches Some(c) && c.uuid@ == uuid@),
            outcome matches Ok(auth) ==> auth.uuid@ == uuid@ && auth.authentication_token@
                == jwt_token@,
    {
        match claims {
            Some(user_claims) => {
                let wanted = uuid.to_owned();
                if user_claims.uuid == wanted {
                    Ok(
                        UserAuthentication {
                            authentication_token: jwt_token.to_owned(),
                            uuid: user_claims.uuid,
                        },
                    )
                } else {
                    Err(())
                }
            },
            None => Err(()),
        }
    }
}

} // verus!
