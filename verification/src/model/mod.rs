//! Plain projections of what TDLib reports.
pub mod chat;
pub mod chips;
pub mod entity;
pub mod ids;
pub mod key;
pub mod message;
pub mod path;
pub mod time;
