//! Verified core of the San Diego Nerf Club web backend.
//!
//! The server itself (HTTP routing, the Discord gateway, the SQLite database and
//! template rendering) lives outside this crate; this library holds the decisions
//! it makes: configuration defaults, the mapping of Discord scheduled events to
//! stored events, the synchronisation plan between Discord and the database, the
//! reCAPTCHA request and its verdict, and the invite and event-page responses.
pub mod cli;
pub mod config;
pub mod database;
pub mod decimal;
pub mod events;
pub mod handlers;
pub mod recaptcha_verify;
pub mod timefmt;
