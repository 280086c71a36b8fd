//! A chat client core: a live event-subscription session with per-channel
//! subscription bookkeeping, and the lifecycle of the credential that
//! authorizes it.

pub mod badges;
pub mod emote;
pub mod eventsub;
pub mod message;
pub mod token;
pub mod types;
