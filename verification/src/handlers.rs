//! Responses of the two API routes, `/api/get_events` and `/api/generate_invite`.
pub mod generate_invite;
pub mod get_events;

pub use generate_invite::InviteForm;
pub use get_events::EventDetails;
