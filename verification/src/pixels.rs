use vstd::prelude::*;

verus! {

/// An RGB colour with one byte per channel.
#[derive(Copy, Clone, Debug, PartialEq, Eq, Structural)]
pub struct Color {
    pub r: u8,
    pub g: u8,
    pub b: u8,
}

/// A pixel of a square RGB buffer, addressed by column `x` and row `y`.
#[derive(Copy, Clone, Debug, PartialEq, Eq, Structural)]
pub struct Pixel {
    pub x: usize,
    pub y: usize,
    pub color: Color,
}

/// Channel `k` (0 = red, 1 = green, 2 = blue) of a colour.
pub open spec fn channel(color: Color, k: int) -> u8 {
    if k == 0 {
        color.r
    } else if k == 1 {
        color.g
    } else {
        color.b
    }
}

/// Index of the cell (pixel slot) at column `x`, row `y` of a buffer `size` cells wide.
pub open spec fn cell_index(size: int, x: int, y: int) -> int {
    y * size + x
}

/// The buffer `buf` with every cell of `cells` set to `color`: byte `i` belongs to
/// cell `i / 3` and holds channel `i % 3` of it.
pub open spec fn paint_cells(buf: Seq<u8>, cells: Set<int>, color: Color) -> Seq<u8> {
    Seq::new(
        buf.len(),
        |i: int| if cells.contains(i / 3) { channel(color, i % 3) } else { buf[i] },
    )
}

/// Whether the three bytes of the cell at (`x`, `y`) lie inside a buffer of `len` bytes.
pub open spec fn cell_fits(len: int, size: int, x: int, y: int) -> bool {
    3 * cell_index(size, x, y) + 2 < len
}

/// Painting cell `c` sets exactly its three bytes to the colour's channels.
pub proof fn lemma_paint_single_cell(buf: Seq<u8>, c: int, color: Color)
    requires
        0 <= c,
        3 * c + 2 < buf.len(),
    ensures
        paint_cells(buf, set![c], color)[3 * c] == color.r,
        paint_cells(buf, set![c], color)[3 * c + 1] == color.g,
        paint_cells(buf, set![c], color)[3 * c + 2] == color.b,
        forall|i: int|
            0 <= i < buf.len() && !(3 * c <= i < 3 * c + 3) ==> #[trigger] paint_cells(
                buf,
                set![c],
                color,
            )[i] == buf[i],
{
    assert((3 * c) / 3 == c && (3 * c) % 3 == 0);
    assert((3 * c + 1) / 3 == c && (3 * c + 1) % 3 == 1);
    assert((3 * c + 2) / 3 == c && (3 * c + 2) % 3 == 2);
    assert forall|i: int| 0 <= i < buf.len() && !(3 * c <= i < 3 * c + 3) implies #[trigger] paint_cells(
        buf,
        set![c],
        color,
    )[i] == buf[i] by {
        assert(i / 3 != c);
    }
}

/// Writes the three bytes of one pixel; the public pixel writers below go through it.
fn write_cell(buffer: &mut [u8], size: usize, pixel: Pixel)
    requires
        cell_fits(old(buffer)@.len() as int, size as int, pixel.x as int, pixel.y as int),
    ensures
        final(buffer)@ == paint_cells(
            old(buffer)@,
            set![cell_index(size as int, pixel.x as int, pixel.y as int)],
            pixel.color,
        ),
{
    let ghost c = cell_index(size as int, pixel.x as int, pixel.y as int);
    let ghost old_buf = buffer@;
    let len = buffer.len();
    assert(pixel.y * size <= c) by (nonlinear_arith)
        requires
            c == pixel.y * size + pixel.x,
            pixel.x >= 0,
    ;
    assert(pixel.y * size * 3 == 3 * (pixel.y * size)) by (nonlinear_arith);
    assert(3 * c + 2 < len);
    assert(pixel.y * size <= usize::MAX);
    assert(pixel.y * size * 3 <= usize::MAX);
    let offset = pixel.y * size * 3 + pixel.x * 3;
    assert(offset == 3 * c);
    buffer[offset] = pixel.color.r;
    buffer[offset + 1] = pixel.color.g;
    buffer[offset + 2] = pixel.color.b;
    proof {
        lemma_paint_single_cell(old_buf, c, pixel.color);
        assert(buffer@ =~= paint_cells(old_buf, set![c], pixel.color));
    }
}

/// Writes the colour of `pixel` into the RGB buffer of a canvas `size` pixels wide.
/// The three bytes of the pixel get its red, green and blue; nothing else changes.
pub fn put_pixel(pixel: Pixel, buffer: &mut [u8], size: usize)
    requires
        cell_fits(old(buffer)@.len() as int, size as int, pixel.x as int, pixel.y as int),
    ensures
        final(buffer)@ == paint_cells(
            old(buffer)@,
            set![cell_index(size as int, pixel.x as int, pixel.y as int)],
            pixel.color,
        ),
{
    write_cell(buffer, size, pixel);
}

/// Same as [`put_pixel`], on a growable buffer.
pub fn put_pixel_to_buffer(buffer: &mut Vec<u8>, size: usize, pixel: Pixel)
    requires
        cell_fits(old(buffer)@.len() as int, size as int, pixel.x as int, pixel.y as int),
    ensures
        final(buffer)@ == paint_cells(
            old(buffer)@,
            set![cell_index(size as int, pixel.x as int, pixel.y as int)],
            pixel.color,
        ),
{
    write_cell(buffer.as_mut_slice(), size, pixel);
}

} // verus!
