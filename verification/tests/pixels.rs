use durer::pixels::{put_pixel, put_pixel_to_buffer, Color, Pixel};
use durer::screen::{screen_x, screen_y};

#[test]
fn put_pixel_writes_three_channels() {
    let mut buffer = vec![0u8; 4 * 4 * 3];
    let pixel = Pixel { x: 2, y: 1, color: Color { r: 10, g: 20, b: 30 } };
    put_pixel(pixel, &mut buffer, 4);
    let offset = (1 * 4 + 2) * 3;
    assert_eq!(&buffer[offset..offset + 3], &[10, 20, 30]);
    let changed = buffer.iter().filter(|b| **b != 0).count();
    assert_eq!(changed, 3);
}

#[test]
fn put_pixel_to_buffer_writes_last_pixel() {
    let mut buffer = vec![7u8; 3 * 3 * 3];
    put_pixel_to_buffer(&mut buffer, 3, Pixel { x: 2, y: 2, color: Color { r: 1, g: 2, b: 3 } });
    assert_eq!(&buffer[24..27], &[1, 2, 3]);
    assert!(buffer[..24].iter().all(|b| *b == 7));
}

#[test]
fn screen_coordinates_from_canvas_coordinates() {
    assert_eq!(screen_x(0, 100), 50);
    assert_eq!(screen_x(-50, 100), 0);
    assert_eq!(screen_x(49, 100), 99);
    assert_eq!(screen_y(0, 100), 49);
    assert_eq!(screen_y(49, 100), 0);
    assert_eq!(screen_y(-50, 100), 99);
}

#[test]
fn screen_coordinates_wrap_when_negative() {
    assert_eq!(screen_x(-51, 100), usize::MAX);
    assert_eq!(screen_y(50, 100), usize::MAX);
}

#[test]
fn screen_coordinates_odd_width_rounds_half_toward_zero() {
    assert_eq!(screen_x(0, 5), 2);
    assert_eq!(screen_x(0, -5), usize::MAX - 1);
}
