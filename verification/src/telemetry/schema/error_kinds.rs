//! The values of the `error.kind` key.
use vstd::prelude::*;

verus! {

pub const TD_FLOOD_WAIT: &'static str = "td.flood_wait";

pub const TD_AUTH: &'static str = "td.auth";

pub const TD_RATE_LIMIT: &'static str = "td.rate_limit";

pub const TD_OTHER: &'static str = "td.other";

pub const NET_TIMEOUT: &'static str = "net.timeout";

pub const NET_OFFLINE: &'static str = "net.offline";

pub const LAYOUT_PANIC: &'static str = "layout.panic";

pub const IO_DENIED: &'static str = "io.denied";

pub const IO_OTHER: &'static str = "io.other";

} // verus!
