use vstd::prelude::*;
use vstd::arithmetic::div_mod::{lemma_fundamental_div_mod, lemma_mod_bound};
use crate::pixels::{Pixel, cell_index, cell_fits, paint_cells, put_pixel};

verus! {

/// Absolute value.
pub open spec fn abs(v: int) -> int {
    if v < 0 {
        -v
    } else {
        v
    }
}

/// `from` moved `n` steps toward `to`.
pub open spec fn step_toward(from: int, to: int, n: int) -> int {
    if to >= from {
        from + n
    } else {
        from - n
    }
}

/// Offset along the minor axis after `k` steps along the major one:
/// `k * minor / major` rounded to the nearest integer, halves rounded down
/// (zero when there is no major extent).
pub open spec fn bresenham_offset(k: int, minor: int, major: int) -> int {
    if major <= 0 {
        0
    } else {
        (2 * k * minor + major - 1) / (2 * major)
    }
}

/// Horizontal and vertical extents of the segment from `start` to `end`.
pub open spec fn line_dx(start: Pixel, end: Pixel) -> int {
    abs(end.x - start.x)
}

pub open spec fn line_dy(start: Pixel, end: Pixel) -> int {
    abs(end.y - start.y)
}

/// Number of pixels a line paints: one per step along its longer axis, the end
/// pixel itself excluded, and never fewer than one (the start pixel).
pub open spec fn line_len(start: Pixel, end: Pixel) -> int {
    let dx = line_dx(start, end);
    let dy = line_dy(start, end);
    if dy <= dx {
        if dx == 0 {
            1
        } else {
            dx
        }
    } else {
        dy
    }
}

/// Column of the `k`-th pixel of the line.
pub open spec fn line_x(start: Pixel, end: Pixel, k: int) -> int {
    let dx = line_dx(start, end);
    let dy = line_dy(start, end);
    if dy <= dx {
        step_toward(start.x as int, end.x as int, k)
    } else {
        step_toward(start.x as int, end.x as int, bresenham_offset(k, dx, dy))
    }
}

/// Row of the `k`-th pixel of the line.
pub open spec fn line_y(start: Pixel, end: Pixel, k: int) -> int {
    let dx = line_dx(start, end);
    let dy = line_dy(start, end);
    if dy <= dx {
        step_toward(start.y as int, end.y as int, bresenham_offset(k, dy, dx))
    } else {
        step_toward(start.y as int, end.y as int, k)
    }
}

/// Buffer cell of the `k`-th pixel of the line on a canvas `size` pixels wide.
pub open spec fn line_cell(start: Pixel, end: Pixel, size: int, k: int) -> int {
    cell_index(size, line_x(start, end, k), line_y(start, end, k))
}

/// Cells of the first `n` pixels of the line.
pub open spec fn line_cells_upto(start: Pixel, end: Pixel, size: int, n: int) -> Set<int> {
    Set::new(|c: int| exists|k: int| 0 <= k < n && c == line_cell(start, end, size, k))
}

/// Cells the line from `start` to `end` paints.
pub open spec fn line_cells(start: Pixel, end: Pixel, size: int) -> Set<int> {
    line_cells_upto(start, end, size, line_len(start, end))
}

/// The buffer after drawing the line from `start` to `end` in the colour of `start`.
pub open spec fn paint_line(buf: Seq<u8>, start: Pixel, end: Pixel, size: int) -> Seq<u8> {
    paint_cells(buf, line_cells(start, end, size), start.color)
}

/// Largest extent a line may have along either axis: beyond it the doubled error terms
/// of the stepping would leave `i32`.
pub open spec fn max_line_extent() -> int {
    0x3fff_ffff
}

/// Whether the line can be drawn into a buffer of `len` bytes of a canvas `size` pixels
/// wide: its endpoints convert to `i32` unchanged, its extents stay within
/// [`max_line_extent`], a single-pixel line does not sit on column `i32::MAX` (the
/// stepping would move one column past it), and every pixel it paints lies inside the
/// buffer.
pub open spec fn line_fits(start: Pixel, end: Pixel, size: int, len: int) -> bool {
    &&& start.x <= i32::MAX
    &&& start.y <= i32::MAX
    &&& end.x <= i32::MAX
    &&& end.y <= i32::MAX
    &&& line_dx(start, end) <= max_line_extent()
    &&& line_dy(start, end) <= max_line_extent()
    &&& (start.x == i32::MAX ==> start.x != end.x || start.y != end.y)
    &&& forall|k: int|
        0 <= k < line_len(start, end) ==> #[trigger] cell_fits(
            len,
            size,
            line_x(start, end, k),
            line_y(start, end, k),
        )
}

/// Floor division bounds.
pub proof fn lemma_floor_div(n: int, m: int)
    requires
        m > 0,
    ensures
        m * (n / m) <= n < m * (n / m) + m,
{
    lemma_fundamental_div_mod(n, m);
    lemma_mod_bound(n, m);
}

/// The minor offset stays between 0 and the minor extent.
pub proof fn lemma_bresenham_offset_bounds(k: int, minor: int, major: int)
    requires
        0 <= minor <= major,
        0 <= k <= major,
    ensures
        0 <= bresenham_offset(k, minor, major) <= minor,
        bresenham_offset(0, minor, major) == 0,
        major > 0 ==> bresenham_offset(major, minor, major) == minor,
{
    if major > 0 {
        let n = 2 * k * minor + major - 1;
        let m = 2 * major;
        let q = n / m;
        lemma_floor_div(n, m);
        assert(0 <= k * minor <= major * minor) by (nonlinear_arith)
            requires
                0 <= minor,
                0 <= k <= major,
        ;
        assert(0 <= q <= minor) by (nonlinear_arith)
            requires
                m * q <= n < m * q + m,
                n == 2 * k * minor + major - 1,
                m == 2 * major,
                major > 0,
                0 <= k * minor <= major * minor,
        ;
        assert(2 * 0 * minor == 0) by (nonlinear_arith);
        lemma_floor_div(major - 1, m);
        assert((major - 1) / m == 0) by (nonlinear_arith)
            requires
                m * ((major - 1) / m) <= major - 1 < m * ((major - 1) / m) + m,
                m == 2 * major,
                major > 0,
        ;
        let nm = 2 * major * minor + major - 1;
        lemma_floor_div(nm, m);
        assert(nm / m == minor) by (nonlinear_arith)
            requires
                m * (nm / m) <= nm < m * (nm / m) + m,
                m == 2 * major,
                nm == 2 * major * minor + major - 1,
                major > 0,
        ;
    }
}

/// One step of the decision variable: with `y = offset(k)` and
/// `d = 2(k+1)minor - major - 2 major y`, the next offset is `y + 1` exactly when
/// `d > 0`, and `d` stays within `(2 minor - 2 major, 2 minor]`.
pub proof fn lemma_bresenham_step(k: int, minor: int, major: int)
    requires
        0 <= minor <= major,
        0 < major,
        0 <= k,
    ensures
        ({
            let y = bresenham_offset(k, minor, major);
            let d = 2 * (k + 1) * minor - major - 2 * major * y;
            &&& 2 * minor - 2 * major < d <= 2 * minor
            &&& bresenham_offset(k + 1, minor, major) == if d > 0 {
                y + 1
            } else {
                y
            }
        }),
{
    let m = 2 * major;
    let n0 = 2 * k * minor + major - 1;
    let n1 = 2 * (k + 1) * minor + major - 1;
    let y = n0 / m;
    let z = n1 / m;
    lemma_floor_div(n0, m);
    lemma_floor_div(n1, m);
    assert(n1 == n0 + 2 * minor) by (nonlinear_arith)
        requires
            n0 == 2 * k * minor + major - 1,
            n1 == 2 * (k + 1) * minor + major - 1,
    ;
    let d = 2 * (k + 1) * minor - major - 2 * major * y;
    assert(d == n1 - m * (y + 1) + 1) by (nonlinear_arith)
        requires
            d == 2 * (k + 1) * minor - major - 2 * major * y,
            n1 == 2 * (k + 1) * minor + major - 1,
            m == 2 * major,
    ;
    assert(2 * minor - 2 * major < d <= 2 * minor) by (nonlinear_arith)
        requires
            m * y <= n0 < m * y + m,
            d == n1 - m * (y + 1) + 1,
            n1 == n0 + 2 * minor,
            m == 2 * major,
    ;
    if d > 0 {
        assert(z == y + 1) by (nonlinear_arith)
            requires
                m * z <= n1 < m * z + m,
                m * (y + 1) <= n1,
                n1 == n0 + 2 * minor,
                n0 < m * y + m,
                2 * minor <= m,
                m > 0,
        ;
    } else {
        assert(z == y) by (nonlinear_arith)
            requires
                m * z <= n1 < m * z + m,
                n1 < m * (y + 1),
                m * y <= n0,
                n0 <= n1,
                m > 0,
        ;
    }
}

/// Painting a set of cells and then one more cell in the same colour paints the union.
pub proof fn lemma_paint_cells_insert(buf: Seq<u8>, cells: Set<int>, c: int, color: crate::pixels::Color)
    ensures
        paint_cells(paint_cells(buf, cells, color), set![c], color) == paint_cells(
            buf,
            cells.insert(c),
            color,
        ),
{
    assert(paint_cells(paint_cells(buf, cells, color), set![c], color) =~= paint_cells(
        buf,
        cells.insert(c),
        color,
    ));
}

/// The first `n + 1` pixels are the first `n` and pixel `n`.
proof fn lemma_line_cells_upto_step(start: Pixel, end: Pixel, size: int, n: int)
    requires
        0 <= n,
    ensures
        line_cells_upto(start, end, size, n + 1) == line_cells_upto(start, end, size, n).insert(
            line_cell(start, end, size, n),
        ),
{
    let a = line_cells_upto(start, end, size, n + 1);
    let b = line_cells_upto(start, end, size, n).insert(line_cell(start, end, size, n));
    assert forall|c: int| a.contains(c) implies b.contains(c) by {
        let k = choose|k: int| 0 <= k < n + 1 && c == line_cell(start, end, size, k);
        if k < n {
            assert(line_cells_upto(start, end, size, n).contains(c));
        }
    }
    assert forall|c: int| b.contains(c) implies a.contains(c) by {
        if c == line_cell(start, end, size, n) {
            assert(0 <= n < n + 1);
        } else {
            let k = choose|k: int| 0 <= k < n && c == line_cell(start, end, size, k);
            assert(0 <= k < n + 1);
        }
    }
    assert(a =~= b);
}

/// The first pixel of a line is its start.
proof fn lemma_line_starts_at_start(start: Pixel, end: Pixel, size: int)
    ensures
        line_x(start, end, 0) == start.x,
        line_y(start, end, 0) == start.y,
        line_cells_upto(start, end, size, 1) == set![cell_index(size, start.x as int, start.y as int)],
{
    let dx = line_dx(start, end);
    let dy = line_dy(start, end);
    if dy <= dx {
        lemma_bresenham_offset_bounds(0, dy, dx);
    } else {
        lemma_bresenham_offset_bounds(0, dx, dy);
    }
    lemma_line_cells_upto_step(start, end, size, 0);
    assert(line_cells_upto(start, end, size, 0) =~= Set::empty());
}

/// Draws the line from `start` to `end` (Bresenham's algorithm) in the colour of
/// `start` into the RGB buffer of a canvas `size` pixels wide. One pixel is painted per
/// step along the longer axis, starting with `start` itself; the end pixel is the
/// step after the last one and is not painted. The `k`-th pixel sits `k` steps along
/// the longer axis and `k * minor / major` (rounded to nearest, halves down) along
/// the shorter one.
pub fn rasterize_line(start: Pixel, end: Pixel, buffer: &mut [u8], size: usize)
    requires
        line_fits(start, end, size as int, old(buffer)@.len() as int),
    ensures
        final(buffer)@ == paint_line(old(buffer)@, start, end, size as int),
{
    let ghost old_buf = buffer@;
    let ghost sz = size as int;
    let x1 = start.x as i32;
    let y1 = start.y as i32;
    let x2 = end.x as i32;
    let y2 = end.y as i32;

    let dx: i32 = if x2 >= x1 { x2 - x1 } else { x1 - x2 };
    let dy: i32 = if y2 >= y1 { y2 - y1 } else { y1 - y2 };
    let sx: i32 = if x2 >= x1 { 1 } else { -1 };
    let sy: i32 = if y2 >= y1 { 1 } else { -1 };

    proof {
        lemma_line_starts_at_start(start, end, sz);
        assert(0 <= 0 < line_len(start, end));
        assert(cell_fits(old_buf.len() as int, sz, line_x(start, end, 0), line_y(start, end, 0)));
    }

    if dy <= dx {
        assert((dy << 1) == 2 * dy) by (bit_vector)
            requires
                0 <= dy < 0x4000_0000,
        ;
        let shrink: i32 = dy - dx;
        assert((shrink << 1) == 2 * shrink) by (bit_vector)
            requires
                -0x4000_0000 < shrink <= 0,
        ;
        let mut d: i32 = (dy << 1) - dx;
        let d1: i32 = dy << 1;
        let d2: i32 = shrink << 1;

        put_pixel(start, buffer, size);

        let mut x: i32 = x1 + sx;
        let mut y: i32 = y1;
        let mut i: i32 = 1;
        proof {
            lemma_bresenham_offset_bounds(0, dy as int, dx as int);
            assert(2 * i * dy - dx - 2 * dx * bresenham_offset(i - 1, dy as int, dx as int) == 2 * dy - dx)
                by (nonlinear_arith)
                requires
                    i == 1,
                    bresenham_offset(i - 1, dy as int, dx as int) == 0,
            ;
        }
        while i < dx
            invariant
                line_fits(start, end, sz, old_buf.len() as int),
                buffer@.len() == old_buf.len(),
                x1 == start.x,
                y1 == start.y,
                x2 == end.x,
                y2 == end.y,
                dx == line_dx(start, end),
                dy == line_dy(start, end),
                dy <= dx,
                sx == (if x2 >= x1 { 1int } else { -1int }),
                sy == (if y2 >= y1 { 1int } else { -1int }),
                d1 == 2 * dy,
                d2 == 2 * (dy - dx),
                sz == size,
                1 <= i <= line_len(start, end),
                x == step_toward(start.x as int, end.x as int, i as int),
                y == step_toward(start.y as int, end.y as int, bresenham_offset(i - 1, dy as int, dx as int)),
                d == 2 * i * dy - dx - 2 * dx * bresenham_offset(i - 1, dy as int, dx as int),
                buffer@ == paint_cells(old_buf, line_cells_upto(start, end, sz, i as int), start.color),
            decreases dx - i,
        {
            proof {
                lemma_bresenham_step(i - 1, dy as int, dx as int);
                lemma_bresenham_offset_bounds(i as int, dy as int, dx as int);
                assert(2 * ((i - 1) + 1) * dy == 2 * i * dy);
                assert(2 * (i + 1) * dy == 2 * i * dy + 2 * dy) by (nonlinear_arith);
            }
            if d > 0 {
                d = d + d2;
                y = y + sy;
            } else {
                d = d + d1;
            }
            proof {
                let yk = bresenham_offset(i - 1, dy as int, dx as int);
                let yn = bresenham_offset(i as int, dy as int, dx as int);
                if yn == yk + 1 {
                    assert(2 * dx * yn == 2 * dx * yk + 2 * dx) by (nonlinear_arith)
                        requires
                            yn == yk + 1,
                    ;
                }
                assert(d == 2 * (i + 1) * dy - dx - 2 * dx * yn);
                assert(y == line_y(start, end, i as int));
                assert(x == line_x(start, end, i as int));
                assert(cell_fits(old_buf.len() as int, sz, line_x(start, end, i as int), line_y(start, end, i as int)));
            }
            put_pixel(Pixel { x: x as usize, y: y as usize, color: start.color }, buffer, size);
            proof {
                lemma_paint_cells_insert(old_buf, line_cells_upto(start, end, sz, i as int), line_cell(start, end, sz, i as int), start.color);
                lemma_line_cells_upto_step(start, end, sz, i as int);
            }
            x = x + sx;
            i = i + 1;
        }
    } else {
        assert((dx << 1) == 2 * dx) by (bit_vector)
            requires
                0 <= dx < 0x4000_0000,
        ;
        let shrink: i32 = dx - dy;
        assert((shrink << 1) == 2 * shrink) by (bit_vector)
            requires
                -0x4000_0000 < shrink <= 0,
        ;
        let mut d: i32 = (dx << 1) - dy;
        let d1: i32 = dx << 1;
        let d2: i32 = shrink << 1;

        put_pixel(start, buffer, size);

        let mut x: i32 = x1;
        let mut y: i32 = y1 + sy;
        let mut i: i32 = 1;
        proof {
            lemma_bresenham_offset_bounds(0, dx as int, dy as int);
            assert(2 * i * dx - dy - 2 * dy * bresenham_offset(i - 1, dx as int, dy as int) == 2 * dx - dy)
                by (nonlinear_arith)
                requires
                    i == 1,
                    bresenham_offset(i - 1, dx as int, dy as int) == 0,
            ;
        }
        while i < dy
            invariant
                line_fits(start, end, sz, old_buf.len() as int),
                buffer@.len() == old_buf.len(),
                x1 == start.x,
                y1 == start.y,
                x2 == end.x,
                y2 == end.y,
                dx == line_dx(start, end),
                dy == line_dy(start, end),
                dx < dy,
                sx == (if x2 >= x1 { 1int } else { -1int }),
                sy == (if y2 >= y1 { 1int } else { -1int }),
                d1 == 2 * dx,
                d2 == 2 * (dx - dy),
                sz == size,
                1 <= i <= line_len(start, end),
                y == step_toward(start.y as int, end.y as int, i as int),
                x == step_toward(start.x as int, end.x as int, bresenham_offset(i - 1, dx as int, dy as int)),
                d == 2 * i * dx - dy - 2 * dy * bresenham_offset(i - 1, dx as int, dy as int),
                buffer@ == paint_cells(old_buf, line_cells_upto(start, end, sz, i as int), start.color),
            decreases dy - i,
        {
            proof {
                lemma_bresenham_step(i - 1, dx as int, dy as int);
                lemma_bresenham_offset_bounds(i as int, dx as int, dy as int);
                assert(2 * ((i - 1) + 1) * dx == 2 * i * dx);
                assert(2 * (i + 1) * dx == 2 * i * dx + 2 * dx) by (nonlinear_arith);
            }
            if d > 0 {
                d = d + d2;
                x = x + sx;
            } else {
                d = d + d1;
            }
            proof {
                let yk = bresenham_offset(i - 1, dx as int, dy as int);
                let yn = bresenham_offset(i as int, dx as int, dy as int);
                if yn == yk + 1 {
                    assert(2 * dy * yn == 2 * dy * yk + 2 * dy) by (nonlinear_arith)
                        requires
                            yn == yk + 1,
                    ;
                }
                assert(d == 2 * (i + 1) * dx - dy - 2 * dy * yn);
                assert(y == line_y(start, end, i as int));
                assert(x == line_x(start, end, i as int));
                assert(cell_fits(old_buf.len() as int, sz, line_x(start, end, i as int), line_y(start, end, i as int)));
            }
            put_pixel(Pixel { x: x as usize, y: y as usize, color: start.color }, buffer, size);
            proof {
                lemma_paint_cells_insert(old_buf, line_cells_upto(start, end, sz, i as int), line_cell(start, end, sz, i as int), start.color);
                lemma_line_cells_upto_step(start, end, sz, i as int);
            }
            y = y + sy;
            i = i + 1;
        }
    }
}

/// Consecutive pixels of a line are 8-neighbours: each step moves exactly one pixel
/// along the longer axis and at most one along the shorter axis.
pub proof fn line_steps_are_connected(start: Pixel, end: Pixel, k: int)
    requires
        0 <= k,
        k + 1 < line_len(start, end),
    ensures
        abs(line_x(start, end, k + 1) - line_x(start, end, k)) <= 1,
        abs(line_y(start, end, k + 1) - line_y(start, end, k)) <= 1,
        line_dy(start, end) <= line_dx(start, end) ==> abs(
            line_x(start, end, k + 1) - line_x(start, end, k),
        ) == 1,
        line_dx(start, end) < line_dy(start, end) ==> abs(
            line_y(start, end, k + 1) - line_y(start, end, k),
        ) == 1,
{
    let dx = line_dx(start, end);
    let dy = line_dy(start, end);
    if dy <= dx {
        lemma_bresenham_step(k, dy, dx);
    } else {
        lemma_bresenham_step(k, dx, dy);
    }
}

/// Every pixel of a line lies within the bounding box of its endpoints.
pub proof fn line_pixels_in_bounding_box(start: Pixel, end: Pixel, k: int)
    requires
        0 <= k < line_len(start, end),
    ensures
        start.x <= line_x(start, end, k) <= end.x || end.x <= line_x(start, end, k) <= start.x,
        start.y <= line_y(start, end, k) <= end.y || end.y <= line_y(start, end, k) <= start.y,
{
    let dx = line_dx(start, end);
    let dy = line_dy(start, end);
    if dy <= dx {
        lemma_bresenham_offset_bounds(k, dy, dx);
    } else {
        lemma_bresenham_offset_bounds(k, dx, dy);
    }
}

/// The line heads for `end`: one step past its last pixel is `end` itself (for distinct
/// endpoints).
pub proof fn line_stops_one_step_before_end(start: Pixel, end: Pixel)
    requires
        start.x != end.x || start.y != end.y,
    ensures
        line_x(start, end, line_len(start, end)) == end.x,
        line_y(start, end, line_len(start, end)) == end.y,
{
    let dx = line_dx(start, end);
    let dy = line_dy(start, end);
    if dy <= dx {
        lemma_bresenham_offset_bounds(dx, dy, dx);
    } else {
        lemma_bresenham_offset_bounds(dy, dx, dy);
    }
}

/// A line whose endpoints lie on a `size` by `size` canvas stays on it, so it fits a
/// buffer of `3 * size * size` bytes.
pub proof fn line_on_canvas_fits(start: Pixel, end: Pixel, size: int, len: int)
    requires
        start.x < size,
        start.y < size,
        end.x < size,
        end.y < size,
        size <= max_line_extent() + 1,
        len >= 3 * size * size,
    ensures
        line_fits(start, end, size, len),
{
    assert forall|k: int| 0 <= k < line_len(start, end) implies #[trigger] cell_fits(
        len,
        size,
        line_x(start, end, k),
        line_y(start, end, k),
    ) by {
        line_pixels_in_bounding_box(start, end, k);
        let x = line_x(start, end, k);
        let y = line_y(start, end, k);
        assert(3 * (y * size + x) + 2 < 3 * size * size) by (nonlinear_arith)
            requires
                0 <= x < size,
                0 <= y < size,
        ;
    }
}

} // verus!
