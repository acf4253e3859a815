//! Synchronization engine of a task manager whose tasks live on a remote
//! calendar server or in a local store.
//!
//! The engine performs no input or output. Each operation is a step function
//! from a state and a response to the next state and the next request; the
//! embedding program performs the requests and hands back the responses.

pub mod adapter;
pub mod bootstrap;
pub mod client;
pub mod clock;
pub mod config;
pub mod crud;
pub mod delta;
pub mod discover;
pub mod exchange;
pub mod filter;
pub mod gui;
pub mod ical;
pub mod journal;
pub mod migrate;
pub mod mobile;
pub mod model;
pub mod refresh;
pub mod replay;
pub mod store;
pub mod sync;
pub mod text;
pub mod toggle;
pub mod tui;
