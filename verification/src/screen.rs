use vstd::prelude::*;

verus! {

/// Half of `w`, rounded toward zero as Rust's `/` does.
pub open spec fn half_toward_zero(w: int) -> int {
    if w >= 0 {
        w / 2
    } else {
        -((-w) / 2)
    }
}

/// Column of the buffer that canvas abscissa `x_canvas` falls on; the canvas origin
/// sits in the middle of a canvas `canvas_width` pixels wide.
pub open spec fn screen_x_spec(x_canvas: int, canvas_width: int) -> int {
    half_toward_zero(canvas_width) + x_canvas
}

/// Row of the buffer that canvas ordinate `y_canvas` falls on; canvas ordinates grow
/// upwards, buffer rows downwards.
pub open spec fn screen_y_spec(y_canvas: int, canvas_height: int) -> int {
    half_toward_zero(canvas_height) - y_canvas - 1
}

/// Converts a canvas abscissa to a buffer column (a negative result wraps, as `as usize` does).
pub fn screen_x(x_canvas: i32, canvas_width: i32) -> (column: usize)
    requires
        i32::MIN <= screen_x_spec(x_canvas as int, canvas_width as int) <= i32::MAX,
    ensures
        column == screen_x_spec(x_canvas as int, canvas_width as int) as usize,
{
    (canvas_width / 2 + x_canvas) as usize
}

/// Converts a canvas ordinate to a buffer row (a negative result wraps, as `as usize` does).
pub fn screen_y(y_canvas: i32, canvas_height: i32) -> (row: usize)
    requires
        i32::MIN <= screen_y_spec(y_canvas as int, canvas_height as int),
        half_toward_zero(canvas_height as int) - y_canvas <= i32::MAX,
    ensures
        row == screen_y_spec(y_canvas as int, canvas_height as int) as usize,
{
    (canvas_height / 2 - y_canvas - 1) as usize
}

/// Every canvas point with `-w/2 <= x < w/2` and `-h/2 <= y < h/2` lands inside the
/// `w` by `h` buffer, distinct points land on distinct pixels, and a step up on the
/// canvas is a step to the previous buffer row.
pub proof fn screen_mapping_is_inside_and_injective(
    x: int,
    y: int,
    x2: int,
    y2: int,
    w: int,
    h: int,
)
    requires
        0 <= w,
        0 <= h,
        -(w / 2) <= x < w / 2,
        -(h / 2) <= y < h / 2,
    ensures
        0 <= screen_x_spec(x, w) < w,
        0 <= screen_y_spec(y, h) < h,
        screen_x_spec(x2, w) == screen_x_spec(x, w) ==> x2 == x,
        screen_y_spec(y2, h) == screen_y_spec(y, h) ==> y2 == y,
        screen_y_spec(y + 1, h) == screen_y_spec(y, h) - 1,
{
}

} // verus!
