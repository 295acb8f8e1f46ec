//! Core state of a terminal Telegram client: the state machines behind every
//! pane, as functions from a state and an event to the next state and the
//! effects to perform.
pub mod action;
pub mod app;
pub mod collections;
pub mod effect;
pub mod laws;
pub mod model;
pub mod state;
pub mod td;
pub mod telemetry;
pub mod text;
