//! Turns filesystem change notifications into ordered change records that a
//! single-threaded host drains on its own periodic tick.

pub mod event;
pub mod normalize;
pub mod queue;
pub mod root;
pub mod dispatch;

pub use event::{FileChange, FileEventType};
