//! Push notifications: priorities, channels, user preferences and the delivery queue.
pub mod push;
