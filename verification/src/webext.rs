//! Decisions of the web extension that do not need the page itself.
use vstd::prelude::*;

verus! {

/// The scroll position of the page body after scrolling `pixels` down from
/// `scroll_top` (up when `pixels` is negative).
pub fn scrolled_top(scroll_top: i64, pixels: i64) -> (r: i64)
    requires
        i64::MIN <= scroll_top + pixels <= i64::MAX,
    ensures
        r == scroll_top + pixels,
{
    scroll_top + pixels
}

} // verus!
