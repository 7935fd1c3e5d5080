//! The virtual scrolling window: how many rows fit the viewport, and where
//! the window must sit so the cursor stays visible.

use vstd::prelude::*;

verus! {

/// Rows that fit a viewport: at least one; a fixed fallback of ten when the
/// viewport or the row height is unmeasured.
pub open spec fn window_rows_spec(height_px: int, row_px: int) -> int {
    if height_px <= 0 || row_px <= 0 {
        10int
    } else if height_px / row_px < 1 {
        1int
    } else {
        height_px / row_px
    }
}

/// Computes the visible row count from pixel sizes.
pub fn compute_window_rows(height_px: usize, row_px: usize) -> (r: usize)
    ensures
        r as int == window_rows_spec(height_px as int, row_px as int),
        r >= 1,
{
    if height_px == 0 || row_px == 0 {
        return 10;
    }
    let rows = height_px / row_px;
    if rows < 1 {
        1
    } else {
        rows
    }
}

/// The largest top index that still fills the window where possible.
pub open spec fn max_top(len: int, rows: int) -> int {
    if len > rows {
        len - rows
    } else {
        0int
    }
}

/// The selection clamped into the entry range.
pub open spec fn clamped_sel(len: int, sel: int) -> int {
    if len == 0 {
        0int
    } else if sel >= len {
        len - 1
    } else {
        sel
    }
}

/// The top index pulled so the selection lies inside the window.
pub open spec fn scrolled_top(top: int, sel: int, rows: int) -> int {
    if sel < top {
        sel
    } else if sel >= top + rows {
        sel - rows + 1
    } else {
        top
    }
}

/// The top index clamped into its valid range.
pub open spec fn clamped_top(top: int, len: int, rows: int) -> int {
    if top > max_top(len, rows) {
        max_top(len, rows)
    } else {
        top
    }
}

/// Where manual scrolling puts the top index before the cursor is pulled
/// back into view: moved by the delta and clamped into `[0, mt]`.
pub open spec fn scroll_top_spec(top: int, delta: int, mt: int) -> int {
    let t = top + delta;
    if t < 0 {
        0int
    } else if t > mt {
        mt
    } else {
        t
    }
}

/// Where the window sits after a selection change or entry growth: the
/// selection is clamped, the window pulled over it, and the top clamped.
pub open spec fn normalized_top(len: int, sel: int, top: int, rows: int) -> int {
    if len == 0 {
        0int
    } else {
        clamped_top(scrolled_top(top, clamped_sel(len, sel), rows), len, rows)
    }
}

} // verus!
