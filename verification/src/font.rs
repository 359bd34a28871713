use vstd::prelude::*;

verus! {

/// Number of glyphs in [`FONT`]: the printable ASCII characters from `' '` to `'~'`.
pub const GLYPH_COUNT: usize = 95;

/// A monospaced 8x8 bitmap font for the printable ASCII characters, starting at `' '`.
/// Each glyph is eight rows from top to bottom; in a row the most significant bit is
/// the leftmost pixel.
pub const FONT: [[u8; 8]; 95] = [
    [0x00, 0x00, 0x00, 0x00, 0x00, 0x00, 0x00, 0x00], // ' '
    [0x18, 0x3C, 0x3C, 0x18, 0x18, 0x00, 0x18, 0x00], // '!'
    [0x36, 0x36, 0x36, 0x00, 0x00, 0x00, 0x00, 0x00], // '"'
    [0x36, 0x36, 0x7F, 0x36, 0x7F, 0x36, 0x36, 0x00], // '#'
    [0x0C, 0x3E, 0x03, 0x1E, 0x30, 0x1F, 0x0C, 0x00], // '$'
    [0x1E, 0x33, 0x18, 0x0C, 0x18, 0x33, 0x1E, 0x00], // '%'
    [0x0C, 0x1E, 0x33, 0x33, 0x3F, 0x1C, 0x38, 0x00], // '&'
    [0x18, 0x18, 0x36, 0x36, 0x00, 0x00, 0x00, 0x00], // '''
    [0x0E, 0x18, 0x18, 0x18, 0x18, 0x18, 0x0E, 0x00], // '('
    [0x70, 0x18, 0x18, 0x18, 0x18, 0x18, 0x70, 0x00], // ')'
    [0x00, 0x66, 0x3C, 0xFF, 0x3C, 0x66, 0x00, 0x00], // '*'
    [0x00, 0x18, 0x18, 0x7E, 0x18, 0x18, 0x00, 0x00], // '+'
    [0x00, 0x00, 0x00, 0x00, 0x00, 0x18, 0x18, 0x30], // ','
    [0x00, 0x00, 0x00, 0x7E, 0x00, 0x00, 0x00, 0x00], // '-'
    [0x00, 0x00, 0x00, 0x00, 0x00, 0x18, 0x18, 0x00], // '.'
    [0x06, 0x0C, 0x18, 0x30, 0x60, 0x40, 0x00, 0x00], // '/'
    [0x3C, 0x66, 0x66, 0x66, 0x66, 0x66, 0x3C, 0x00], // '0'
    [0x18, 0x38, 0x18, 0x18, 0x18, 0x18, 0x7E, 0x00], // '1'
    [0x3C, 0x66, 0x0C, 0x18, 0x30, 0x60, 0x7E, 0x00], // '2'
    [0x3C, 0x66, 0x0C, 0x38, 0x0C, 0x66, 0x3C, 0x00], // '3'
    [0x0C, 0x1C, 0x2C, 0x4C, 0x7C, 0x0C, 0x0C, 0x00], // '4'
    [0x7E, 0x60, 0x7C, 0x06, 0x06, 0x66, 0x3C, 0x00], // '5'
    [0x38, 0x60, 0x7C, 0x66, 0x66, 0x66, 0x3C, 0x00], // '6'
    [0x7C, 0x66, 0x0C, 0x18, 0x30, 0x30, 0x30, 0x00], // '7'
    [0x3C, 0x66, 0x66, 0x3C, 0x66, 0x66, 0x3C, 0x00], // '8'
    [0x3C, 0x66, 0x66, 0x3E, 0x06, 0x0C, 0x38, 0x00], // '9'
    [0x00, 0x18, 0x18, 0x00, 0x00, 0x18, 0x18, 0x00], // ':'
    [0x00, 0x18, 0x18, 0x00, 0x00, 0x18, 0x18, 0x30], // ';'
    [0x00, 0x18, 0x30, 0x60, 0x30, 0x18, 0x00, 0x00], // '<'
    [0x00, 0x00, 0x7E, 0x00, 0x7E, 0x00, 0x00, 0x00], // '='
    [0x00, 0x60, 0x30, 0x18, 0x30, 0x60, 0x00, 0x00], // '>'
    [0x3C, 0x66, 0x0C, 0x18, 0x30, 0x00, 0x30, 0x00], // '?'
    [0x3C, 0x66, 0x66, 0x66, 0x7E, 0x6C, 0x36, 0x00], // '@'
    [0x1C, 0x36, 0x66, 0x66, 0x7E, 0x66, 0x66, 0x00], // 'A'
    [0x7C, 0x66, 0x66, 0x7C, 0x66, 0x66, 0x7C, 0x00], // 'B'
    [0x3C, 0x66, 0x60, 0x60, 0x60, 0x66, 0x3C, 0x00], // 'C'
    [0x78, 0x6C, 0x66, 0x66, 0x66, 0x6C, 0x78, 0x00], // 'D'
    [0x7E, 0x60, 0x60, 0x7C, 0x60, 0x60, 0x7E, 0x00], // 'E'
    [0x7E, 0x60, 0x60, 0x7C, 0x60, 0x60, 0x60, 0x00], // 'F'
    [0x3C, 0x66, 0x60, 0x60, 0x66, 0x66, 0x3C, 0x0E], // 'G'
    [0x66, 0x66, 0x66, 0x7E, 0x66, 0x66, 0x66, 0x00], // 'H'
    [0x3C, 0x18, 0x18, 0x18, 0x18, 0x18, 0x3C, 0x00], // 'I'
    [0x0F, 0x06, 0x06, 0x06, 0x06, 0x66, 0x3C, 0x00], // 'J'
    [0x66, 0x6C, 0x78, 0x70, 0x78, 0x6C, 0x66, 0x00], // 'K'
    [0x60, 0x60, 0x60, 0x60, 0x60, 0x60, 0x7E, 0x00], // 'L'
    [0x63, 0x77, 0x7F, 0x7F, 0x63, 0x63, 0x63, 0x00], // 'M'
    [0x66, 0x6E, 0x76, 0x7E, 0x6E, 0x66, 0x66, 0x00], // 'N'
    [0x3C, 0x66, 0x66, 0x66, 0x66, 0x66, 0x3C, 0x00], // 'O'
    [0x7C, 0x66, 0x66, 0x7C, 0x60, 0x60, 0x60, 0x00], // 'P'
    [0x3C, 0x66, 0x66, 0x66, 0x6E, 0x6C, 0x3D, 0x00], // 'Q'
    [0x7C, 0x66, 0x66, 0x7C, 0x6C, 0x66, 0x66, 0x00], // 'R'
    [0x3C, 0x66, 0x60, 0x3C, 0x06, 0x66, 0x3C, 0x00], // 'S'
    [0x7E, 0x18, 0x18, 0x18, 0x18, 0x18, 0x18, 0x00], // 'T'
    [0x66, 0x66, 0x66, 0x66, 0x66, 0x66, 0x3C, 0x00], // 'U'
    [0x66, 0x66, 0x66, 0x66, 0x66, 0x3C, 0x18, 0x00], // 'V'
    [0x63, 0x63, 0x63, 0x6B, 0x6B, 0x6B, 0x46, 0x00], // 'W'
    [0x66, 0x66, 0x3C, 0x18, 0x3C, 0x66, 0x66, 0x00], // 'X'
    [0x66, 0x66, 0x66, 0x3C, 0x18, 0x18, 0x18, 0x00], // 'Y'
    [0x7E, 0x66, 0x30, 0x18, 0x0C, 0x66, 0x7E, 0x00], // 'Z'
    [0x3C, 0x60, 0x60, 0x60, 0x60, 0x60, 0x3C, 0x00], // '['
    [0x60, 0x30, 0x18, 0x0C, 0x18, 0x30, 0x60, 0x00], // '\'
    [0x3C, 0x06, 0x06, 0x06, 0x06, 0x06, 0x3C, 0x00], // ']'
    [0x18, 0x3C, 0x66, 0x00, 0x00, 0x00, 0x00, 0x00], // '^'
    [0x00, 0x00, 0x00, 0x00, 0x00, 0x00, 0x00, 0x7E], // '_'
    [0x18, 0x0C, 0x06, 0x00, 0x00, 0x00, 0x00, 0x00], // '`'
    [0x00, 0x00, 0x3C, 0x06, 0x3E, 0x66, 0x3E, 0x00], // 'a'
    [0x60, 0x60, 0x7C, 0x66, 0x66, 0x66, 0x7C, 0x00], // 'b'
    [0x00, 0x00, 0x3C, 0x66, 0x60, 0x66, 0x3C, 0x00], // 'c'
    [0x06, 0x06, 0x3E, 0x66, 0x66, 0x66, 0x3E, 0x00], // 'd'
    [0x00, 0x00, 0x3C, 0x66, 0x7E, 0x60, 0x3C, 0x00], // 'e'
    [0x1C, 0x30, 0x30, 0x7C, 0x30, 0x30, 0x30, 0x00], // 'f'
    [0x00, 0x00, 0x3E, 0x66, 0x66, 0x3E, 0x06, 0x7C], // 'g'
    [0x60, 0x60, 0x7C, 0x66, 0x66, 0x66, 0x66, 0x00], // 'h'
    [0x18, 0x00, 0x38, 0x18, 0x18, 0x18, 0x3C, 0x00], // 'i'
    [0x06, 0x00, 0x0E, 0x06, 0x06, 0x06, 0x06, 0x3C], // 'j'
    [0x60, 0x60, 0x66, 0x6C, 0x78, 0x6C, 0x66, 0x00], // 'k'
    [0x38, 0x18, 0x18, 0x18, 0x18, 0x18, 0x3C, 0x00], // 'l'
    [0x00, 0x00, 0x6C, 0x7E, 0x7E, 0x66, 0x66, 0x00], // 'm'
    [0x00, 0x00, 0x7C, 0x66, 0x66, 0x66, 0x66, 0x00], // 'n'
    [0x00, 0x00, 0x3C, 0x66, 0x66, 0x66, 0x3C, 0x00], // 'o'
    [0x00, 0x00, 0x7C, 0x66, 0x66, 0x7C, 0x60, 0x60], // 'p'
    [0x00, 0x00, 0x3E, 0x66, 0x66, 0x3E, 0x06, 0x06], // 'q'
    [0x00, 0x00, 0x7C, 0x66, 0x60, 0x60, 0x60, 0x00], // 'r'
    [0x00, 0x00, 0x3E, 0x60, 0x3C, 0x06, 0x7C, 0x00], // 's'
    [0x10, 0x30, 0x30, 0x7C, 0x30, 0x30, 0x1C, 0x00], // 't'
    [0x00, 0x00, 0x66, 0x66, 0x66, 0x66, 0x3E, 0x00], // 'u'
    [0x00, 0x00, 0x66, 0x66, 0x66, 0x3C, 0x18, 0x00], // 'v'
    [0x00, 0x00, 0x66, 0x66, 0x6E, 0x6E, 0x46, 0x00], // 'w'
    [0x00, 0x00, 0x66, 0x3C, 0x18, 0x3C, 0x66, 0x00], // 'x'
    [0x00, 0x00, 0x66, 0x66, 0x66, 0x3E, 0x06, 0x7C], // 'y'
    [0x00, 0x00, 0x7E, 0x18, 0x30, 0x60, 0x7E, 0x00], // 'z'
    [0x1C, 0x30, 0x30, 0x60, 0x30, 0x30, 0x1C, 0x00], // '{'
    [0x18, 0x18, 0x7E, 0x18, 0x18, 0x18, 0x18, 0x00], // '|'
    [0x70, 0x30, 0x30, 0x18, 0x30, 0x30, 0x70, 0x00], // '}'
    [0x00, 0x00, 0x00, 0x00, 0x00, 0x00, 0x00, 0x00], // '~'
];

} // verus!
