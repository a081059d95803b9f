//! A gateway that hands out rate-limited API keys, keeps them in the
//! client's session, and gates image generation on verifying them.
pub mod config;
pub mod credential;
pub mod gateway;
pub mod generation;
pub mod json;
pub mod json_value;
pub mod session;
