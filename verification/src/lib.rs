//! Task scheduling engine for a moderation bot: timed role suspensions with
//! automatic restoration, fixed-interval recurring actions, and
//! calendar-conditional recurring actions, together with the store that
//! holds them, the intake queue that feeds them in, the per-tick scheduling
//! decisions, and the durable text format the task list is persisted in.

pub mod clock;
pub mod condition;
pub mod message;
pub mod action;
pub mod tasks;
pub mod store;
pub mod tick;
pub mod restore;
pub mod codec;
pub mod persist;
pub mod intake;
pub mod extras;
pub mod listing;
