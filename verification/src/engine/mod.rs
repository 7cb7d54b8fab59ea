//! The engine: discovery, encrypted sessions, input relaying, clipboard sync and
//! file transfer.
//!
//! The engine owns every piece of mutable state. It receives commands from the UI
//! plus events from the network, the input backend, the clipboard watcher and the
//! discovery services, and answers each with a list of actions for the program
//! around it. Nothing is shared behind a lock, so there is no way for the state to
//! be observed half updated.

pub mod admitting;
pub mod consistency;
pub mod control;
pub mod delivering;
pub mod dispatch;
pub mod handover;
pub mod laws;
pub mod meeting;
pub mod options;
pub mod outcomes;
pub mod output;
pub mod pairing;
pub mod rules;
pub mod services;
pub mod sharing;
pub mod snapshot;
pub mod state;
pub mod steering;
pub mod tidying;
pub mod transfers;
pub mod trust;

pub use crate::engine::options::{EngineError, EngineOptions};
pub use crate::engine::state::{Action, Command, Engine, Moment};
