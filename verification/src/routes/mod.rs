pub mod auth;
pub mod utils;
