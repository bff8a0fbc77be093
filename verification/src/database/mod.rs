//! The stored form of Discord events.
pub mod models;
