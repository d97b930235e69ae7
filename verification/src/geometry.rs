//! Row heights of the keyboard window.
use vstd::prelude::*;

verus! {

/// Default window height in pixels.
pub const DEFAULT_WINDOW_HEIGHT: i32 = 260;

/// Smallest key height in pixels.
pub const MIN_KEY_HEIGHT: i32 = 30;

/// Vertical padding around all rows, in pixels.
pub const VERTICAL_PADDING_TOTAL: i32 = 8;

/// Gap between rows, in pixels.
pub const ROW_GAP: i32 = 1;

/// Integer division rounding toward zero, as Rust's `/` does.
pub open spec fn div_toward_zero(a: int, b: int) -> int
    recommends
        b > 0,
{
    if a >= 0 {
        a / b
    } else {
        -((-a) / b)
    }
}

/// The row height for `count` rows in `length` pixels: the height left after
/// padding and gaps, shared equally, but never below the minimum key height.
pub open spec fn geometry_unit(length: int, count: int) -> int {
    if count <= 0 {
        MIN_KEY_HEIGHT as int
    } else {
        let share = div_toward_zero(
            length - VERTICAL_PADDING_TOTAL - ROW_GAP * (count - 1),
            count,
        );
        if share > MIN_KEY_HEIGHT {
            share
        } else {
            MIN_KEY_HEIGHT as int
        }
    }
}

/// Divide usable height between rows, keeping the minimum touch-key height.
pub fn cal_geometry_unit(length: i32, count: i32) -> (r: i32)
    requires
        count > 0 ==> length - VERTICAL_PADDING_TOTAL - ROW_GAP * (count - 1) >= i32::MIN,
    ensures
        r == geometry_unit(length as int, count as int),
        r >= MIN_KEY_HEIGHT,
{
    if count <= 0 {
        return MIN_KEY_HEIGHT;
    }
    let gaps = if count - 1 > 0 {
        ROW_GAP * (count - 1)
    } else {
        0
    };
    let available = length - VERTICAL_PADDING_TOTAL - gaps;
    let share = available / count;
    assert(share == div_toward_zero(available as int, count as int));
    if share > MIN_KEY_HEIGHT {
        share
    } else {
        MIN_KEY_HEIGHT
    }
}

} // verus!
