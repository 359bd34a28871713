use vstd::prelude::*;
use crate::pixels::{Color, Pixel, cell_index, cell_fits, paint_cells, put_pixel};
use crate::line::{line_fits, paint_line, rasterize_line};

verus! {

/// A square RGB canvas of `size` by `size` pixels, stored row by row, three bytes a pixel.
pub struct BufferCanvas {
    pub size: usize,
    pub buffer: Vec<u8>,
}

/// A point of the canvas plane: origin in the middle of the canvas, `y` growing upwards.
#[derive(Copy, Clone, Debug, PartialEq, Eq, Structural)]
pub struct Point {
    pub x: i32,
    pub y: i32,
}

/// A buffer of `n` zero bytes.
pub open spec fn zeros(n: int) -> Seq<u8> {
    Seq::new(n as nat, |i: int| 0u8)
}

/// Column of canvas abscissa `x` on a canvas `size` pixels wide; the column just past
/// the right edge is pulled back onto the last column.
pub open spec fn canvas_screen_x(size: int, x: int) -> int {
    let r = size / 2 + x;
    if r == size {
        size - 1
    } else {
        r
    }
}

/// Row of canvas ordinate `y`; the row just above the top edge is pulled back onto row 0.
pub open spec fn canvas_screen_y(size: int, y: int) -> int {
    let r = size / 2 - y - 1;
    if r == -1 {
        0
    } else {
        r
    }
}

/// Whether canvas abscissa `x` converts without leaving `i32`.
pub open spec fn screen_x_computable(size: int, x: int) -> bool {
    &&& size <= i32::MAX
    &&& i32::MIN <= size / 2 + x <= i32::MAX
}

/// Whether canvas ordinate `y` converts without leaving `i32`.
pub open spec fn screen_y_computable(size: int, y: int) -> bool {
    &&& size <= i32::MAX
    &&& i32::MIN <= size / 2 - y - 1
    &&& size / 2 - y <= i32::MAX
}

/// The buffer pixel that canvas point `p` is drawn on, in colour `color`.
pub open spec fn canvas_pixel(size: int, p: Point, color: Color) -> Pixel {
    Pixel {
        x: canvas_screen_x(size, p.x as int) as usize,
        y: canvas_screen_y(size, p.y as int) as usize,
        color,
    }
}

/// Whether canvas point `p` converts to a buffer pixel.
pub open spec fn point_computable(size: int, p: Point) -> bool {
    screen_x_computable(size, p.x as int) && screen_y_computable(size, p.y as int)
}

impl BufferCanvas {
    /// The buffer holds exactly `size * size` pixels.
    pub open spec fn well_formed(&self) -> bool {
        self.buffer@.len() == self.size * self.size * 3
    }

    /// A black canvas of `size` by `size` pixels.
    pub fn new(size: usize) -> (canvas: Self)
        requires
            size * size * 3 <= usize::MAX,
        ensures
            canvas.size == size,
            canvas.buffer@ == zeros(size * size * 3),
            canvas.well_formed(),
    {
        let buffer = vec![0u8; size * size * 3];
        let canvas = Self { size, buffer };
        assert(canvas.buffer@ =~= zeros(size * size * 3));
        canvas
    }

    /// Paints the whole canvas black.
    pub fn clear(&mut self)
        requires
            old(self).size * old(self).size * 3 <= usize::MAX,
        ensures
            final(self).size == old(self).size,
            final(self).buffer@ == zeros(old(self).size * old(self).size * 3),
            final(self).well_formed(),
    {
        self.buffer = vec![0u8; self.size * self.size * 3];
        assert(self.buffer@ =~= zeros(self.size * self.size * 3));
    }

    /// Writes the colour of `pixel` at its column and row.
    pub fn put_pixel(&mut self, pixel: Pixel)
        requires
            cell_fits(
                old(self).buffer@.len() as int,
                old(self).size as int,
                pixel.x as int,
                pixel.y as int,
            ),
        ensures
            final(self).size == old(self).size,
            final(self).buffer@ == paint_cells(
                old(self).buffer@,
                set![cell_index(old(self).size as int, pixel.x as int, pixel.y as int)],
                pixel.color,
            ),
    {
        put_pixel(pixel, self.buffer.as_mut_slice(), self.size);
    }

    /// Buffer column of canvas abscissa `x_canvas`.
    pub fn screen_x(&self, x_canvas: i32) -> (column: usize)
        requires
            screen_x_computable(self.size as int, x_canvas as int),
        ensures
            column == canvas_screen_x(self.size as int, x_canvas as int) as usize,
    {
        let canvas_width = self.size as i32;
        let result = canvas_width / 2 + x_canvas;

        if result == canvas_width {
            (canvas_width - 1) as usize
        } else {
            result as usize
        }
    }

    /// Buffer row of canvas ordinate `y_canvas`.
    pub fn screen_y(&self, y_canvas: i32) -> (row: usize)
        requires
            screen_y_computable(self.size as int, y_canvas as int),
        ensures
            row == canvas_screen_y(self.size as int, y_canvas as int) as usize,
    {
        let canvas_height = self.size as i32;
        let result = canvas_height / 2 - y_canvas - 1;

        if result == -1 {
            0
        } else {
            result as usize
        }
    }

    /// The buffer pixel of canvas point `point`, in colour `color`.
    pub fn point_to_pixel(&self, point: Point, color: Color) -> (pixel: Pixel)
        requires
            point_computable(self.size as int, point),
        ensures
            pixel == canvas_pixel(self.size as int, point, color),
    {
        Pixel { x: self.screen_x(point.x), y: self.screen_y(point.y), color }
    }

    /// Paints canvas point `point` in `color`.
    pub fn draw_point(&mut self, point: Point, color: Color)
        requires
            point_computable(old(self).size as int, point),
            cell_fits(
                old(self).buffer@.len() as int,
                old(self).size as int,
                canvas_pixel(old(self).size as int, point, color).x as int,
                canvas_pixel(old(self).size as int, point, color).y as int,
            ),
        ensures
            final(self).size == old(self).size,
            final(self).buffer@ == paint_cells(
                old(self).buffer@,
                set![
                    cell_index(
                        old(self).size as int,
                        canvas_pixel(old(self).size as int, point, color).x as int,
                        canvas_pixel(old(self).size as int, point, color).y as int,
                    ),
                ],
                color,
            ),
    {
        let pixel = self.point_to_pixel(point, color);
        self.put_pixel(pixel);
    }

    /// Draws the line between two canvas points in `color`.
    pub fn draw_line(&mut self, start: Point, end: Point, color: Color)
        requires
            point_computable(old(self).size as int, start),
            point_computable(old(self).size as int, end),
            line_fits(
                canvas_pixel(old(self).size as int, start, color),
                canvas_pixel(old(self).size as int, end, color),
                old(self).size as int,
                old(self).buffer@.len() as int,
            ),
        ensures
            final(self).size == old(self).size,
            final(self).buffer@ == paint_line(
                old(self).buffer@,
                canvas_pixel(old(self).size as int, start, color),
                canvas_pixel(old(self).size as int, end, color),
                old(self).size as int,
            ),
    {
        let start_pixel = self.point_to_pixel(start, color);
        let end_pixel = self.point_to_pixel(end, color);
        self.rasterize_line(start_pixel, end_pixel);
    }

    /// Draws the line between two buffer pixels in the colour of `start`
    /// (see [`crate::line::rasterize_line`]).
    pub fn rasterize_line(&mut self, start: Pixel, end: Pixel)
        requires
            line_fits(start, end, old(self).size as int, old(self).buffer@.len() as int),
        ensures
            final(self).size == old(self).size,
            final(self).buffer@ == paint_line(old(self).buffer@, start, end, old(self).size as int),
    {
        rasterize_line(start, end, self.buffer.as_mut_slice(), self.size);
    }
}

/// Whether canvas point `point` lies within the canvas square, borders included.
pub fn is_point_in_canvas(point: Point, canvas: &BufferCanvas) -> (inside: bool)
    requires
        canvas.size / 2 <= i32::MAX,
    ensures
        inside == (-(canvas.size / 2) <= point.x <= canvas.size / 2 && -(canvas.size / 2)
            <= point.y <= canvas.size / 2),
{
    let canvas_half_size = (canvas.size / 2) as i32;
    let min_x = -canvas_half_size;
    let max_x = canvas_half_size;
    let min_y = -canvas_half_size;
    let max_y = canvas_half_size;

    point.x >= min_x && point.x <= max_x && point.y >= min_y && point.y <= max_y
}

/// A point that passes [`is_point_in_canvas`] converts to a pixel of the canvas: its
/// column and row lie in `0..size`, so its three bytes lie inside a well-formed buffer.
pub proof fn points_in_canvas_land_on_canvas(size: int, p: Point, color: Color)
    requires
        1 <= size <= i32::MAX,
        -(size / 2) <= p.x <= size / 2,
        -(size / 2) <= p.y <= size / 2,
    ensures
        point_computable(size, p),
        0 <= canvas_pixel(size, p, color).x < size,
        0 <= canvas_pixel(size, p, color).y < size,
        cell_fits(
            size * size * 3,
            size,
            canvas_pixel(size, p, color).x as int,
            canvas_pixel(size, p, color).y as int,
        ),
{
    let x = canvas_screen_x(size, p.x as int);
    let y = canvas_screen_y(size, p.y as int);
    assert(0 <= x < size && 0 <= y < size);
    assert(3 * (y * size + x) + 2 < size * size * 3) by (nonlinear_arith)
        requires
            0 <= x < size,
            0 <= y < size,
    ;
}

/// The canvas after drawing the three sides of triangle `p0 p1 p2` in `color`.
pub open spec fn paint_wireframe_triangle(
    buf: Seq<u8>,
    size: int,
    p0: Point,
    p1: Point,
    p2: Point,
    color: Color,
) -> Seq<u8> {
    let a = canvas_pixel(size, p0, color);
    let b = canvas_pixel(size, p1, color);
    let c = canvas_pixel(size, p2, color);
    paint_line(paint_line(paint_line(buf, a, b, size), b, c, size), c, a, size)
}

/// Draws the outline of triangle `p0 p1 p2`: sides `p0 p1`, `p1 p2`, `p2 p0`, in that order.
pub fn draw_wireframe_triangle(
    p0: Point,
    p1: Point,
    p2: Point,
    color: Color,
    canvas: &mut BufferCanvas,
)
    requires
        point_computable(old(canvas).size as int, p0),
        point_computable(old(canvas).size as int, p1),
        point_computable(old(canvas).size as int, p2),
        line_fits(
            canvas_pixel(old(canvas).size as int, p0, color),
            canvas_pixel(old(canvas).size as int, p1, color),
            old(canvas).size as int,
            old(canvas).buffer@.len() as int,
        ),
        line_fits(
            canvas_pixel(old(canvas).size as int, p1, color),
            canvas_pixel(old(canvas).size as int, p2, color),
            old(canvas).size as int,
            old(canvas).buffer@.len() as int,
        ),
        line_fits(
            canvas_pixel(old(canvas).size as int, p2, color),
            canvas_pixel(old(canvas).size as int, p0, color),
            old(canvas).size as int,
            old(canvas).buffer@.len() as int,
        ),
    ensures
        final(canvas).size == old(canvas).size,
        final(canvas).buffer@ == paint_wireframe_triangle(
            old(canvas).buffer@,
            old(canvas).size as int,
            p0,
            p1,
            p2,
            color,
        ),
{
    canvas.draw_line(p0, p1, color);
    canvas.draw_line(p1, p2, color);
    canvas.draw_line(p2, p0, color);
}

} // verus!
