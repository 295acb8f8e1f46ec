//! The keys that telemetry may carry.
use vstd::prelude::*;

verus! {

pub const APP_VERSION: &'static str = "app.version";

pub const OS_VERSION: &'static str = "os.version";

pub const TERM_PROGRAM: &'static str = "term.program";

/// `kitty`, `iterm2`, `sixel` or `none`.
pub const TERM_GRAPHICS_PROTOCOL: &'static str = "term.graphics_protocol";

/// See [`crate::telemetry::schema::buckets::width`].
pub const TERM_WIDTH_BUCKET: &'static str = "term.width_bucket";

pub const INSTALL_ID: &'static str = "install.id";

pub const SESSION_ID: &'static str = "session.id";

pub const ACTION: &'static str = "action";

/// `ok`, `error` or `cancelled`.
pub const OUTCOME: &'static str = "outcome";

pub const ERROR_KIND: &'static str = "error.kind";

pub const DURATION_MS: &'static str = "duration_ms";

/// `private`, `group`, `supergroup` or `channel`.
pub const CHAT_KIND: &'static str = "chat.kind";

/// Eight bytes of an HMAC-SHA256, in hex.
pub const CHAT_HASH: &'static str = "chat.hash";

pub const HISTORY_PAGE_DEPTH: &'static str = "history.page_depth";

pub const DOWNLOAD_SIZE_BUCKET: &'static str = "download.size_bucket";

pub const PUBLIC_MARKER: &'static str = "telemetry.public";

} // verus!
