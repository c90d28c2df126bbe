//! Bus-side logic: delivery classes, frame checks, event subscriptions
//! and the per-message decisions of a bus connection.

pub mod client;
pub mod codec;
pub mod delivery;
pub mod event_subscriptions;
pub mod listener;
