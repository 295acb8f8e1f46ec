//! The values of the `action` key.
use vstd::prelude::*;

verus! {

pub const APP_START: &'static str = "app.start";

pub const APP_QUIT: &'static str = "app.quit";

pub const QR_LOGIN: &'static str = "qr_login";

pub const PHONE_LOGIN: &'static str = "phone_login";

pub const CHAT_OPEN: &'static str = "chat.open";

pub const MESSAGE_SEND: &'static str = "message.send";

pub const MESSAGE_REPLY: &'static str = "message.reply";

pub const MESSAGE_FORWARD: &'static str = "message.forward";

pub const MESSAGE_DELETE: &'static str = "message.delete";

pub const MESSAGE_EDIT: &'static str = "message.edit";

pub const MESSAGE_REACT: &'static str = "message.react";

pub const HISTORY_PAGE: &'static str = "history.page";

pub const PALETTE_OPEN: &'static str = "palette.open";

pub const SEARCH_RUN: &'static str = "search.run";

pub const FILE_DOWNLOAD: &'static str = "file.download";

pub const FILE_UPLOAD: &'static str = "file.upload";

pub const THEME_CHANGE: &'static str = "theme.change";

} // verus!
