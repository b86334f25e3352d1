//! What a session token says of its bearer.

use vstd::prelude::*;

verus! {

/// The claims of a session token.
#[derive(Debug, PartialEq, Eq)]
pub struct UserClaims {
    /// when the token expires, in seconds since the epoch
    pub exp: usize,
    pub uuid: String,
}

/// The moment `minutes` minutes after `now`, in seconds since the epoch, as
/// far as a `usize` can hold it: no earlier than the epoch, no later than
/// the largest value.
pub open spec fn expiry(now: i64, minutes: i64) -> usize {
    if now + 60 * minutes < 0 {
        0
    } else if now + 60 * minutes > usize::MAX {
        usize::MAX
    } else {
        (now + 60 * minutes) as usize
    }
}

impl UserClaims {
    /// Claims for `uuid` that expire `user_jwt_expiration_minutes` minutes
    /// after `now`.
    pub fn new(now: i64, user_jwt_expiration_minutes: i64, uuid: String) -> (claims: Self)
        ensures
            claims.exp == expiry(now, user_jwt_expiration_minutes),
            claims.uuid == uuid,
    {
        let moment: i128 = now as i128 + 60 * (user_jwt_expiration_minutes as i128);
        let exp: usize = if moment < 0 {
            0
        } else if moment > usize::MAX as i128 {
            usize::MAX
        } else {
            moment as usize
        };
        UserClaims { exp, uuid }
    }
}

} // verus!
