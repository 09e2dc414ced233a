//! A verified day-keyed click counter: a store of per-day add/sub counters,
//! a pure projector that derives daily and ISO-weekly statistics from it,
//! and a textual codec for the persisted state.

pub mod calendar;
pub mod codec;
pub mod keys;
pub mod models;
pub mod stats;
pub mod store;
pub mod ui;
