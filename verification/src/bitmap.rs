use vstd::prelude::*;
use crate::pixels::{Color, cell_index, cell_fits, paint_cells};
use crate::font::{FONT, GLYPH_COUNT};

verus! {

/// An RGB image of `width` by `height` pixels, stored row by row, three bytes a pixel.
pub struct Bitmap {
    pub width: usize,
    pub height: usize,
    pub buffer: Vec<u8>,
}

impl Bitmap {
    /// The buffer holds exactly `width * height` pixels.
    pub open spec fn well_formed(&self) -> bool {
        self.buffer@.len() == self.width * self.height * 3
    }

    /// A black bitmap of `width` by `height` pixels.
    pub fn new(width: u32, height: u32) -> (bitmap: Self)
        requires
            width * height * 3 <= u32::MAX,
        ensures
            bitmap.width == width,
            bitmap.height == height,
            bitmap.buffer@ == Seq::new((width * height * 3) as nat, |i: int| 0u8),
            bitmap.well_formed(),
    {
        let bitmap = Self {
            width: width as usize,
            height: height as usize,
            buffer: vec![0; (width * height * 3) as usize],
        };
        assert(bitmap.buffer@ =~= Seq::new((width * height * 3) as nat, |i: int| 0u8));
        bitmap
    }

    /// Sets every byte of the bitmap to `shade`.
    pub fn clear(&mut self, shade: u8)
        ensures
            final(self).width == old(self).width,
            final(self).height == old(self).height,
            final(self).buffer@ == Seq::new(old(self).buffer@.len(), |i: int| shade),
    {
        let n = self.buffer.len();
        let mut i: usize = 0;
        while i < n
            invariant
                n == self.buffer@.len(),
                0 <= i <= n,
                self.width == old(self).width,
                self.height == old(self).height,
                self.buffer@.len() == old(self).buffer@.len(),
                forall|j: int| 0 <= j < i ==> self.buffer@[j] == shade,
            decreases n - i,
        {
            self.buffer[i] = shade;
            i = i + 1;
        }
        assert(self.buffer@ =~= Seq::new(old(self).buffer@.len(), |i: int| shade));
    }

    /// Writes colour (`r`, `g`, `b`) at column `x`, row `y`.
    pub fn draw_pixel(&mut self, x: usize, y: usize, r: u8, g: u8, b: u8)
        requires
            cell_fits(old(self).buffer@.len() as int, old(self).width as int, x as int, y as int),
        ensures
            final(self).width == old(self).width,
            final(self).height == old(self).height,
            final(self).buffer@ == paint_cells(
                old(self).buffer@,
                set![cell_index(old(self).width as int, x as int, y as int)],
                Color { r, g, b },
            ),
    {
        let ghost c = cell_index(self.width as int, x as int, y as int);
        let ghost old_buf = self.buffer@;
        let len = self.buffer.len();
        assert(y * self.width <= c) by (nonlinear_arith)
            requires
                c == y * self.width + x,
                x >= 0,
        ;
        assert(3 * c + 2 < len);
        let index = (y * self.width + x) * 3;
        self.buffer[index] = r;
        self.buffer[index + 1] = g;
        self.buffer[index + 2] = b;
        proof {
            crate::pixels::lemma_paint_single_cell(old_buf, c, Color { r, g, b });
            assert(self.buffer@ =~= paint_cells(old_buf, set![c], Color { r, g, b }));
        }
    }
}

/// Glyph of `ch` in [`FONT`]: the low byte of the character, less 32, clamped at 0.
pub open spec fn glyph_index(ch: char) -> int {
    let low = (ch as u32) % 256;
    if low < 32 {
        0
    } else {
        low - 32
    }
}

/// Whether bit `col` (0 = leftmost) of glyph row `bits` is set.
pub open spec fn glyph_bit(bits: u8, col: int) -> bool {
    (bits >> ((7 - col) as usize)) & 1u8 == 1u8
}

/// Whether pixel (`col`, `row`) of the glyph of `ch` is set; no pixel is set for
/// characters past the end of the font.
pub open spec fn glyph_pixel(ch: char, row: int, col: int) -> bool {
    &&& glyph_index(ch) < GLYPH_COUNT
    &&& 0 <= row < 8
    &&& 0 <= col < 8
    &&& glyph_bit(FONT@[glyph_index(ch)]@[row], col)
}

/// Whether glyph pixel number `t` (`8 * row + col`) of `ch`, drawn at (`x`, `y`), is set
/// and falls inside a `width` by `height` bitmap.
pub open spec fn glyph_pixel_shown(ch: char, x: int, y: int, width: int, height: int, t: int) -> bool {
    &&& glyph_pixel(ch, t / 8, t % 8)
    &&& x + t % 8 < width
    &&& y + t / 8 < height
}

/// Bitmap cell of glyph pixel number `t` drawn at (`x`, `y`).
pub open spec fn glyph_cell(x: int, y: int, width: int, t: int) -> int {
    cell_index(width, x + t % 8, y + t / 8)
}

/// Cells painted by the first `n` glyph pixels (row by row) of `ch` drawn at (`x`, `y`).
pub open spec fn char_cells_upto(ch: char, x: int, y: int, width: int, height: int, n: int) -> Set<int> {
    Set::new(
        |c: int|
            exists|t: int|
                0 <= t < n && glyph_pixel_shown(ch, x, y, width, height, t) && c == glyph_cell(
                    x,
                    y,
                    width,
                    t,
                ),
    )
}

/// Cells painted when drawing `ch` with its top-left corner at (`x`, `y`): the set pixels
/// of its glyph that fall inside the bitmap.
pub open spec fn char_cells(ch: char, x: int, y: int, width: int, height: int) -> Set<int> {
    char_cells_upto(ch, x, y, width, height, 64)
}

/// Whether the coordinates of every set glyph pixel of `ch` drawn at (`x`, `y`) fit a `usize`.
pub open spec fn char_coordinates_fit(ch: char, x: int, y: int) -> bool {
    forall|row: int, col: int|
        #[trigger] glyph_pixel(ch, row, col) ==> x + col <= usize::MAX && y + row <= usize::MAX
}

proof fn lemma_char_cells_step(ch: char, x: int, y: int, width: int, height: int, n: int)
    requires
        0 <= n,
    ensures
        char_cells_upto(ch, x, y, width, height, n + 1) == if glyph_pixel_shown(
            ch,
            x,
            y,
            width,
            height,
            n,
        ) {
            char_cells_upto(ch, x, y, width, height, n).insert(glyph_cell(x, y, width, n))
        } else {
            char_cells_upto(ch, x, y, width, height, n)
        },
{
    let a = char_cells_upto(ch, x, y, width, height, n + 1);
    let b = if glyph_pixel_shown(ch, x, y, width, height, n) {
        char_cells_upto(ch, x, y, width, height, n).insert(glyph_cell(x, y, width, n))
    } else {
        char_cells_upto(ch, x, y, width, height, n)
    };
    assert forall|c: int| a.contains(c) implies b.contains(c) by {
        let t = choose|t: int|
            0 <= t < n + 1 && glyph_pixel_shown(ch, x, y, width, height, t) && c == glyph_cell(
                x,
                y,
                width,
                t,
            );
        if t < n {
            assert(char_cells_upto(ch, x, y, width, height, n).contains(c));
        }
    }
    assert forall|c: int| b.contains(c) implies a.contains(c) by {
        if glyph_pixel_shown(ch, x, y, width, height, n) && c == glyph_cell(x, y, width, n) {
            assert(0 <= n < n + 1);
        } else {
            let t = choose|t: int|
                0 <= t < n && glyph_pixel_shown(ch, x, y, width, height, t) && c == glyph_cell(
                    x,
                    y,
                    width,
                    t,
                );
            assert(0 <= t < n + 1);
        }
    }
    assert(a =~= b);
}

/// Draws character `ch` in colour (`r`, `g`, `b`) with the top-left corner of its 8x8
/// glyph at (`x`, `y`). Only the set pixels of the glyph that fall inside the bitmap are
/// written; characters without a glyph draw nothing.
pub fn draw_char(bitmap: &mut Bitmap, ch: char, x: usize, y: usize, r: u8, g: u8, b: u8)
    requires
        old(bitmap).well_formed(),
        char_coordinates_fit(ch, x as int, y as int),
    ensures
        final(bitmap).width == old(bitmap).width,
        final(bitmap).height == old(bitmap).height,
        final(bitmap).buffer@ == paint_cells(
            old(bitmap).buffer@,
            char_cells(ch, x as int, y as int, old(bitmap).width as int, old(bitmap).height as int),
            Color { r, g, b },
        ),
{
    let ghost old_buf = bitmap.buffer@;
    let ghost w = bitmap.width as int;
    let ghost h = bitmap.height as int;
    let ghost color = Color { r, g, b };
    let code: u32 = ch as u32;
    assert((code as u8) == code % 256) by (bit_vector);
    let idx = (code as u8).saturating_sub(32) as usize;
    if idx >= GLYPH_COUNT {
        proof {
            assert(char_cells(ch, x as int, y as int, w, h) =~= Set::empty());
            assert(paint_cells(old_buf, Set::empty(), color) =~= old_buf);
        }
        return;
    }
    let glyph = &FONT[idx];
    let mut row: usize = 0;
    proof {
        assert(char_cells_upto(ch, x as int, y as int, w, h, 0) =~= Set::empty());
        assert(paint_cells(old_buf, Set::empty(), color) =~= old_buf);
    }
    while row < 8
        invariant
            0 <= row <= 8,
            idx == glyph_index(ch),
            idx < GLYPH_COUNT,
            *glyph == FONT[idx as int],
            color == (Color { r, g, b }),
            w == bitmap.width,
            h == bitmap.height,
            bitmap.buffer@.len() == old_buf.len(),
            old_buf.len() == w * h * 3,
            char_coordinates_fit(ch, x as int, y as int),
            bitmap.buffer@ == paint_cells(
                old_buf,
                char_cells_upto(ch, x as int, y as int, w, h, 8 * row),
                color,
            ),
        decreases 8 - row,
    {
        let byte = glyph[row];
        let mut col: usize = 0;
        while col < 8
            invariant
                0 <= row < 8,
                0 <= col <= 8,
                idx == glyph_index(ch),
                idx < GLYPH_COUNT,
                byte == FONT@[idx as int]@[row as int],
                color == (Color { r, g, b }),
                w == bitmap.width,
                h == bitmap.height,
                bitmap.buffer@.len() == old_buf.len(),
                old_buf.len() == w * h * 3,
                char_coordinates_fit(ch, x as int, y as int),
                bitmap.buffer@ == paint_cells(
                    old_buf,
                    char_cells_upto(ch, x as int, y as int, w, h, 8 * row + col),
                    color,
                ),
            decreases 8 - col,
        {
            let ghost t = 8 * row + col;
            proof {
                assert(t / 8 == row && t % 8 == col);
                lemma_char_cells_step(ch, x as int, y as int, w, h, t);
            }
            if (byte >> (7 - col)) & 1 == 1 {
                assert(glyph_pixel(ch, row as int, col as int));
                let px = x + col;
                let py = y + row;
                if px < bitmap.width && py < bitmap.height {
                    let ghost c = cell_index(w, px as int, py as int);
                    assert(py * w + px < w * h) by (nonlinear_arith)
                        requires
                            py < h,
                            px < w,
                            0 <= py,
                            0 <= px,
                    ;
                    bitmap.draw_pixel(px, py, r, g, b);
                    proof {
                        crate::line::lemma_paint_cells_insert(
                            old_buf,
                            char_cells_upto(ch, x as int, y as int, w, h, t),
                            c,
                            color,
                        );
                        assert(glyph_pixel_shown(ch, x as int, y as int, w, h, t));
                        assert(glyph_cell(x as int, y as int, w, t) == c);
                    }
                } else {
                    assert(!glyph_pixel_shown(ch, x as int, y as int, w, h, t));
                }
            } else {
                assert(!glyph_pixel(ch, row as int, col as int));
                assert(!glyph_pixel_shown(ch, x as int, y as int, w, h, t));
            }
            col = col + 1;
        }
        row = row + 1;
    }
}

/// How many characters of an `n`-character string drawn from column `x` fit before the
/// pen passes the right edge of a `width`-pixel bitmap: the first character is always
/// drawn, every later one only while its column is still inside the bitmap.
pub open spec fn drawn_chars(n: int, x: int, width: int) -> int {
    if n <= 0 {
        0
    } else if x >= width {
        1
    } else if n <= (width - x + 7) / 8 {
        n
    } else {
        (width - x + 7) / 8
    }
}

/// Whether character `k` of a string drawn from column `x` is one the pen reaches
/// while still inside a `width`-pixel bitmap: the first character always is.
pub open spec fn pen_inside(x: int, width: int, k: int) -> bool {
    k == 0 || x + 8 * k < width
}

/// Which characters of an `n`-character string drawn from column `x` are drawn: the
/// first always, and every later one exactly when its pen column `x + 8k` still lies
/// inside the `width`-pixel bitmap (a glyph that starts inside but runs past the right
/// edge is drawn clipped).
pub proof fn drawn_chars_are_those_starting_inside(n: int, x: int, width: int)
    requires
        n >= 0,
        x >= 0,
        width >= 0,
    ensures
        0 <= drawn_chars(n, x, width) <= n,
        forall|k: int|
            0 <= k < n ==> (k < drawn_chars(n, x, width) <==> #[trigger] pen_inside(x, width, k)),
{
    if n > 0 && x < width {
        let q = (width - x + 7) / 8;
        crate::line::lemma_floor_div(width - x + 7, 8);
        assert forall|k: int| 0 <= k < n implies (k < drawn_chars(n, x, width) <==> #[trigger] pen_inside(
            x,
            width,
            k,
        )) by {
            assert(8 * q <= width - x + 7 < 8 * q + 8);
            assert(q >= 1);
        }
    }
}

/// The buffer after drawing the first `k` characters of `text`, each 8 pixels right of
/// the previous one, starting at (`x`, `y`).
pub open spec fn paint_text(
    buf: Seq<u8>,
    text: Seq<char>,
    x: int,
    y: int,
    width: int,
    height: int,
    color: Color,
    k: int,
) -> Seq<u8>
    decreases k,
{
    if k <= 0 {
        buf
    } else {
        paint_cells(
            paint_text(buf, text, x, y, width, height, color, k - 1),
            char_cells(text[k - 1], x + 8 * (k - 1), y, width, height),
            color,
        )
    }
}

/// Cells lit by the glyphs of the first `k` characters of `text`, character `j` drawn
/// with its top-left corner at (`x + 8j`, `y`).
pub open spec fn text_cells(text: Seq<char>, x: int, y: int, width: int, height: int, k: int) -> Set<int> {
    Set::new(
        |c: int|
            exists|j: int| 0 <= j < k && #[trigger] char_cells(text[j], x + 8 * j, y, width, height).contains(c),
    )
}

/// Drawing the first `k` characters of a text paints exactly the union of their glyph
/// cells in the colour, and leaves every other byte as it was: later characters only
/// add pixels, they never take back those of earlier ones.
pub proof fn paint_text_paints_the_union_of_glyphs(
    buf: Seq<u8>,
    text: Seq<char>,
    x: int,
    y: int,
    width: int,
    height: int,
    color: Color,
    k: int,
)
    requires
        0 <= k,
    ensures
        paint_text(buf, text, x, y, width, height, color, k) == paint_cells(
            buf,
            text_cells(text, x, y, width, height, k),
            color,
        ),
    decreases k,
{
    if k == 0 {
        assert(text_cells(text, x, y, width, height, 0) =~= Set::empty());
        assert(paint_cells(buf, Set::empty(), color) =~= buf);
    } else {
        paint_text_paints_the_union_of_glyphs(buf, text, x, y, width, height, color, k - 1);
        let before = text_cells(text, x, y, width, height, k - 1);
        let glyph = char_cells(text[k - 1], x + 8 * (k - 1), y, width, height);
        let after = text_cells(text, x, y, width, height, k);
        assert forall|c: int| after.contains(c) <==> (before.contains(c) || glyph.contains(c)) by {
            if after.contains(c) {
                let j = choose|j: int|
                    0 <= j < k && #[trigger] char_cells(text[j], x + 8 * j, y, width, height).contains(c);
                if j < k - 1 {
                    assert(before.contains(c));
                }
            }
            if glyph.contains(c) {
                assert(char_cells(text[k - 1], x + 8 * (k - 1), y, width, height).contains(c));
            }
            if before.contains(c) {
                let j = choose|j: int|
                    0 <= j < k - 1 && #[trigger] char_cells(text[j], x + 8 * j, y, width, height).contains(c);
                assert(0 <= j < k);
            }
        }
        assert(paint_cells(paint_cells(buf, before, color), glyph, color) =~= paint_cells(
            buf,
            after,
            color,
        ));
    }
}

/// Draws `text` in colour (`r`, `g`, `b`) from (`x`, `y`), one 8-pixel-wide glyph after
/// another, stopping once the pen moves past the right edge of the bitmap.
pub fn draw_string(bitmap: &mut Bitmap, text: &str, x: usize, y: usize, r: u8, g: u8, b: u8)
    requires
        old(bitmap).well_formed(),
        x + 8 * drawn_chars(text@.len() as int, x as int, old(bitmap).width as int) <= usize::MAX,
        forall|k: int|
            0 <= k < drawn_chars(text@.len() as int, x as int, old(bitmap).width as int)
                ==> char_coordinates_fit(#[trigger] text@[k], x + 8 * k, y as int),
    ensures
        final(bitmap).width == old(bitmap).width,
        final(bitmap).height == old(bitmap).height,
        final(bitmap).buffer@ == paint_text(
            old(bitmap).buffer@,
            text@,
            x as int,
            y as int,
            old(bitmap).width as int,
            old(bitmap).height as int,
            Color { r, g, b },
            drawn_chars(text@.len() as int, x as int, old(bitmap).width as int),
        ),
{
    let ghost old_buf = bitmap.buffer@;
    let ghost w = bitmap.width as int;
    let ghost h = bitmap.height as int;
    let ghost color = Color { r, g, b };
    let ghost m = drawn_chars(text@.len() as int, x as int, w);
    let chars = crate::text::chars_of(text);
    let n = chars.len();
    let mut cx = x;
    let mut i: usize = 0;
    while i < n
        invariant_except_break
            i == 0 || cx < w,
        invariant
            n == chars@.len(),
            chars@ == text@,
            color == (Color { r, g, b }),
            m == drawn_chars(n as int, x as int, w),
            w == bitmap.width,
            h == bitmap.height,
            bitmap.well_formed(),
            old_buf.len() == bitmap.buffer@.len(),
            x + 8 * m <= usize::MAX,
            forall|k: int| 0 <= k < m ==> char_coordinates_fit(#[trigger] text@[k], x + 8 * k, y as int),
            0 <= i <= n,
            i <= m,
            cx == x + 8 * i,
            bitmap.buffer@ == paint_text(old_buf, text@, x as int, y as int, w, h, color, i as int),
        ensures
            bitmap.buffer@ == paint_text(old_buf, text@, x as int, y as int, w, h, color, m),
        decreases n - i,
    {
        proof {
            if x >= w {
                assert(i == 0);
            } else {
                assert(i < m) by {
                    if i > 0 {
                        assert(x + 8 * i < w);
                        assert(8 * i < w - x);
                        assert(i < (w - x + 7) / 8);
                    }
                }
            }
            assert(char_coordinates_fit(text@[i as int], x + 8 * i, y as int));
        }
        draw_char(bitmap, chars[i], cx, y, r, g, b);
        cx += 8;
        i = i + 1;
        if cx >= bitmap.width {
            proof {
                if x < w {
                    assert(x + 8 * i >= w);
                    assert((w - x + 7) / 8 <= i);
                }
            }
            break;
        }
    }
}

/// Declares `rand::rngs::ThreadRng`, the handle to a thread's random number generator,
/// so that verified code can hold one; its contents stay opaque.
#[verifier::external_type_specification]
#[verifier::external_body]
pub struct ExThreadRng(rand::rngs::ThreadRng);

/// Calls `rand::thread_rng`, a handle to the calling thread's random number generator
/// (it panics only if the operating system's entropy source cannot seed the generator).
/// Nothing is claimed of the handle.
#[verifier::external_body]
fn thread_rng() -> rand::rngs::ThreadRng {
    rand::thread_rng()
}

/// Calls `Rng::gen_range(0..=255)` on the generator: a byte drawn uniformly. The range is
/// never empty, so the call itself has no panicking input (the generator panics only if
/// the operating system's entropy source fails when it reseeds); since every byte can
/// come out, nothing is claimed of the result beyond its type.
#[verifier::external_body]
fn random_channel(rng: &mut rand::rngs::ThreadRng) -> u8 {
    rand::Rng::gen_range(rng, 0..=255u8)
}

/// A `width` by `height` bitmap holding `channels` as its pixels: three bytes (red, green,
/// blue) a pixel, row by row from the top-left corner.
pub fn texture_from_channels(width: u32, height: u32, channels: Vec<u8>) -> (texture: Bitmap)
    requires
        width * height * 3 <= u32::MAX,
        channels@.len() == width * height * 3,
    ensures
        texture.width == width,
        texture.height == height,
        texture.buffer@ == channels@,
        texture.well_formed(),
{
    Bitmap { width: width as usize, height: height as usize, buffer: channels }
}

/// A `width` by `height` bitmap whose every pixel has random red, green and blue: the
/// channels are drawn pixel by pixel, row by row, and laid out by
/// [`texture_from_channels`]. The drawn bytes themselves are chance.
pub fn create_random_texture(width: u32, height: u32) -> (texture: Bitmap)
    requires
        width * height * 3 <= u32::MAX,
    ensures
        texture.width == width,
        texture.height == height,
        texture.well_formed(),
{
    let mut rng = thread_rng();
    let h = height as usize;
    let w = width as usize;
    let mut channels: Vec<u8> = Vec::new();
    let mut j: usize = 0;
    while j < h
        invariant
            0 <= j <= h,
            h == height,
            w == width,
            w * h * 3 <= u32::MAX,
            channels@.len() == j * w * 3,
        decreases h - j,
    {
        assert((j + 1) * w * 3 <= w * h * 3) by (nonlinear_arith)
            requires
                j < h,
        ;
        assert((j + 1) * w * 3 == j * w * 3 + w * 3) by (nonlinear_arith);
        let mut i: usize = 0;
        while i < w
            invariant
                0 <= i <= w,
                j < h,
                h == height,
                w == width,
                (j + 1) * w * 3 <= u32::MAX,
                (j + 1) * w * 3 == j * w * 3 + w * 3,
                channels@.len() == j * w * 3 + i * 3,
            decreases w - i,
        {
            let r = random_channel(&mut rng);
            let g = random_channel(&mut rng);
            let b = random_channel(&mut rng);
            channels.push(r);
            channels.push(g);
            channels.push(b);
            i = i + 1;
        }
        j = j + 1;
    }
    assert(channels@.len() == width * height * 3) by (nonlinear_arith)
        requires
            channels@.len() == h * w * 3,
            h == height,
            w == width,
    ;
    texture_from_channels(width, height, channels)
}

} // verus!
