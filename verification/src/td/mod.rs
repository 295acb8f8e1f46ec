//! The TDLib boundary: requests, responses, updates, errors, and a scripted
//! stand-in for TDLib.
pub mod error;
pub mod fake;
pub mod request;
pub mod update;
