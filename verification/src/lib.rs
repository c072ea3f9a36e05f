//! Decision core of a dial-in schedule announcer.
//!
//! Callers navigate a touch-tone menu and hear spoken summaries of a
//! conference schedule. This crate holds the part that decides: the
//! call-flow state machine, the event filter pipeline, the narration
//! formatter and the call-control instruction builder. Transport, clock
//! reading and the schedule fetch live outside and hand this crate plain
//! values.

pub mod event;
pub mod filter;
pub mod guide;
pub mod handlers;
pub mod jambonz;
pub mod narration;
pub mod voice;

pub use event::{Category, Event, Timestamp, Weekday};
