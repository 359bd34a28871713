use durer::bitmap::{draw_char, draw_string, Bitmap};
use durer::font::FONT;

fn lit(bitmap: &Bitmap) -> Vec<(usize, usize)> {
    let mut result = Vec::new();
    for y in 0..bitmap.height {
        for x in 0..bitmap.width {
            let o = (y * bitmap.width + x) * 3;
            if bitmap.buffer[o] != 0 || bitmap.buffer[o + 1] != 0 || bitmap.buffer[o + 2] != 0 {
                result.push((x, y));
            }
        }
    }
    result
}

fn glyph_pixels(ch: char, x: usize, y: usize) -> Vec<(usize, usize)> {
    let glyph = FONT[(ch as usize) - 32];
    let mut result = Vec::new();
    for row in 0..8 {
        for col in 0..8 {
            if (glyph[row] >> (7 - col)) & 1 == 1 {
                result.push((x + col, y + row));
            }
        }
    }
    result.sort_by_key(|p| (p.1, p.0));
    result
}

#[test]
fn bitmap_new_clear_and_draw_pixel() {
    let mut bitmap = Bitmap::new(4, 3);
    assert_eq!(bitmap.width, 4);
    assert_eq!(bitmap.height, 3);
    assert_eq!(bitmap.buffer.len(), 36);
    assert!(bitmap.buffer.iter().all(|b| *b == 0));
    bitmap.draw_pixel(3, 2, 9, 8, 7);
    assert_eq!(&bitmap.buffer[33..36], &[9, 8, 7]);
    bitmap.clear(5);
    assert!(bitmap.buffer.iter().all(|b| *b == 5));
}

#[test]
fn draw_char_paints_its_glyph() {
    let mut bitmap = Bitmap::new(16, 16);
    draw_char(&mut bitmap, 'A', 2, 3, 0, 255, 0);
    assert_eq!(lit(&bitmap), glyph_pixels('A', 2, 3));
    let o = (3 * 16 + 5) * 3;
    assert_eq!(&bitmap.buffer[o..o + 3], &[0, 255, 0]);
}

#[test]
fn draw_char_clips_at_the_border() {
    let mut bitmap = Bitmap::new(6, 5);
    draw_char(&mut bitmap, 'H', 0, 0, 1, 1, 1);
    let expected: Vec<(usize, usize)> = glyph_pixels('H', 0, 0)
        .into_iter()
        .filter(|p| p.0 < 6 && p.1 < 5)
        .collect();
    assert!(!expected.is_empty());
    assert_eq!(lit(&bitmap), expected);
}

#[test]
fn draw_char_without_glyph_draws_nothing() {
    let mut bitmap = Bitmap::new(16, 16);
    draw_char(&mut bitmap, '\u{7f}', 0, 0, 255, 255, 255);
    draw_char(&mut bitmap, ' ', 0, 0, 255, 255, 255);
    draw_char(&mut bitmap, '\u{100}', 0, 0, 255, 255, 255);
    assert!(lit(&bitmap).is_empty());
}

#[test]
fn draw_char_uses_low_byte_of_character() {
    let mut a = Bitmap::new(8, 8);
    let mut b = Bitmap::new(8, 8);
    draw_char(&mut a, '\u{141}', 0, 0, 1, 2, 3);
    draw_char(&mut b, 'A', 0, 0, 1, 2, 3);
    assert_eq!(a.buffer, b.buffer);
}

#[test]
fn draw_string_advances_eight_pixels_per_character() {
    let mut bitmap = Bitmap::new(32, 8);
    draw_string(&mut bitmap, "HI", 1, 0, 255, 255, 255);
    let mut expected = glyph_pixels('H', 1, 0);
    expected.extend(glyph_pixels('I', 9, 0));
    expected.sort_by_key(|p| (p.1, p.0));
    assert_eq!(lit(&bitmap), expected);
}

#[test]
fn draw_string_stops_past_the_right_edge() {
    let mut full = Bitmap::new(20, 8);
    draw_string(&mut full, "XXXXXX", 0, 0, 255, 255, 255);
    let mut three = Bitmap::new(20, 8);
    draw_string(&mut three, "XXX", 0, 0, 255, 255, 255);
    assert_eq!(full.buffer, three.buffer);
}

#[test]
fn draw_string_starting_outside_draws_first_character_only() {
    let mut bitmap = Bitmap::new(8, 8);
    draw_string(&mut bitmap, "AB", 9, 0, 255, 255, 255);
    assert!(lit(&bitmap).is_empty());
}
