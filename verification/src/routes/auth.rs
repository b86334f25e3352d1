//! What the login route can answer besides a token.

use vstd::prelude::*;

verus! {

/// Why a login failed.
#[derive(Debug, Clone, Copy, PartialEq, Eq, Structural)]
pub enum LoginError {
    GenericError,
    InvalidEmailOrPassword,
}

/// Whether a player plays for fun or for real.
#[derive(Debug, Clone, Copy, PartialEq, Eq, Structural)]
pub enum PlayMode {
    FUN,
    REAL,
}

impl LoginError {
    /// The number by which clients know the error.
    pub open spec fn code_of(self) -> u16 {
        match self {
            LoginError::GenericError => 10011,
            LoginError::InvalidEmailOrPassword => 10012,
        }
    }

    /// The HTTP status that goes with the error.
    pub open spec fn status_of(self) -> u16 {
        match self {
            LoginError::GenericError => 500,
            LoginError::InvalidEmailOrPassword => 400,
        }
    }

    /// Computes `code_of`.
    pub fn code(self) -> (code: u16)
        ensures
            code == self.code_of(),
    {
        match self {
            LoginError::GenericError => 10011,
            LoginError::InvalidEmailOrPassword => 10012,
        }
    }

    /// Computes `status_of`.
    pub fn status_code(self) -> (status: u16)
        ensures
            status == self.status_of(),
    {
        match self {
            LoginError::GenericError => 500,
            LoginError::InvalidEmailOrPassword => 400,
        }
    }
}

impl PlayMode {
    /// Whether a login in this mode gets a guest account: playing for fun
    /// does, playing for real is not on offer.
    pub fn admits_guests(self) -> (yes: bool)
        ensures
            yes == (self is FUN),
    {
        match self {
            PlayMode::FUN => true,
            PlayMode::REAL => false,
        }
    }
}

} // verus!
