//! One module per pane or concern, each with its state and its handlers.
pub mod auth;
pub mod chat_list;
pub mod composer;
pub mod consent;
pub mod conversation;
pub mod focus;
pub mod guarantees;
pub mod history;
pub mod media;
pub mod modal;
pub mod palette;
pub mod presence;
pub mod search;
pub mod selection;
pub mod toasts;
pub mod window;
