//! Verified core of a live-reload bridge between a console and a child interpreter.
pub mod dispatch;
pub mod message;
pub mod planner;
pub mod text;
pub mod watch_set;
