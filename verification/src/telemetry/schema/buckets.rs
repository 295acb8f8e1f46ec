//! Buckets for sizes, so that no exact one is ever sent.
use vstd::prelude::*;

verus! {

pub open spec fn width_name(cols: u16) -> Seq<char> {
    if cols < 80 {
        "<80"@
    } else if cols <= 120 {
        "80-120"@
    } else if cols <= 160 {
        "120-160"@
    } else {
        ">160"@
    }
}

/// The bucket of a terminal width.
pub fn width(cols: u16) -> (r: &'static str)
    ensures
        r@ == width_name(cols),
{
    if cols <= 79 {
        "<80"
    } else if cols <= 120 {
        "80-120"
    } else if cols <= 160 {
        "120-160"
    } else {
        ">160"
    }
}

const MB: u64 = 1_000_000;

pub open spec fn size_name(bytes: u64) -> Seq<char> {
    if bytes < 1_000_000 {
        "<1MB"@
    } else if bytes < 10_000_000 {
        "1-10MB"@
    } else if bytes < 100_000_000 {
        "10-100MB"@
    } else {
        ">100MB"@
    }
}

/// The bucket of a download's size.
pub fn download_size(bytes: u64) -> (r: &'static str)
    ensures
        r@ == size_name(bytes),
{
    if bytes < MB {
        "<1MB"
    } else if bytes < 10 * MB {
        "1-10MB"
    } else if bytes < 100 * MB {
        "10-100MB"
    } else {
        ">100MB"
    }
}

} // verus!
