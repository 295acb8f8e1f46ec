//! The complete allowlist: nothing else is ever sent.
pub mod actions;
pub mod buckets;
pub mod error_kinds;
pub mod keys;

use vstd::prelude::*;

verus! {

/// Every key that telemetry may carry.
pub const ALLOWED_KEYS: [&'static str; 16] = [
    keys::APP_VERSION,
    keys::OS_VERSION,
    keys::TERM_PROGRAM,
    keys::TERM_GRAPHICS_PROTOCOL,
    keys::TERM_WIDTH_BUCKET,
    keys::INSTALL_ID,
    keys::SESSION_ID,
    keys::ACTION,
    keys::OUTCOME,
    keys::ERROR_KIND,
    keys::DURATION_MS,
    keys::CHAT_KIND,
    keys::CHAT_HASH,
    keys::HISTORY_PAGE_DEPTH,
    keys::DOWNLOAD_SIZE_BUCKET,
    keys::PUBLIC_MARKER,
];

/// No key is listed twice.
pub proof fn allowed_keys_are_distinct(i: int, j: int)
    requires
        0 <= i < j < 16,
    ensures
        ALLOWED_KEYS@[i]@ != ALLOWED_KEYS@[j]@,
{
    reveal_strlit("app.version");
    reveal_strlit("os.version");
    reveal_strlit("term.program");
    reveal_strlit("term.graphics_protocol");
    reveal_strlit("term.width_bucket");
    reveal_strlit("install.id");
    reveal_strlit("session.id");
    reveal_strlit("action");
    reveal_strlit("outcome");
    reveal_strlit("error.kind");
    reveal_strlit("duration_ms");
    reveal_strlit("chat.kind");
    reveal_strlit("chat.hash");
    reveal_strlit("history.page_depth");
    reveal_strlit("download.size_bucket");
    reveal_strlit("telemetry.public");
    let a = ALLOWED_KEYS@[i]@;
    let b = ALLOWED_KEYS@[j]@;
    assert(a.len() != b.len() || a[0] != b[0] || a[5] != b[5] || a[6] != b[6]);
}

} // verus!
