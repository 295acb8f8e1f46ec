//! What the operations are for: each law says of an operation's result what it
//! must be, in terms of what went into it.
pub mod updates;
pub mod history;
pub mod view;
pub mod selection;
pub mod login;
pub mod media;
pub mod chat_list;
pub mod rows;
pub mod composer;
pub mod notices;
pub mod palette;
pub mod overlays;
pub mod start;
pub mod text;
