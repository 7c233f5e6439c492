//! Classification-and-deduplicated-logging core of a chat-message reaction
//! bot: text normalization, repeated-character pattern detection, an
//! idempotent event log keyed by (message, conversation), and aggregation
//! queries (per-user and per-conversation counts, rolling-window leaderboard).

pub mod classify;
pub mod event_log;
pub mod handlers;
