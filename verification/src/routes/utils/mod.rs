pub mod auth_token_extractor;
pub mod error_response;
pub mod user_claims;
