use durer::canvas::{draw_wireframe_triangle, is_point_in_canvas, BufferCanvas, Point};
use durer::line::rasterize_line;
use durer::pixels::{Color, Pixel};
use durer::wireframe::draw_face;

fn painted(buffer: &[u8], size: usize) -> Vec<(usize, usize)> {
    let mut result = Vec::new();
    for y in 0..size {
        for x in 0..size {
            let o = (y * size + x) * 3;
            if buffer[o] != 0 || buffer[o + 1] != 0 || buffer[o + 2] != 0 {
                result.push((x, y));
            }
        }
    }
    result
}

fn px(x: usize, y: usize) -> Pixel {
    Pixel { x, y, color: Color { r: 255, g: 255, b: 255 } }
}

#[test]
fn horizontal_line_stops_before_end() {
    let mut buffer = vec![0u8; 8 * 8 * 3];
    rasterize_line(px(0, 0), px(4, 0), &mut buffer, 8);
    assert_eq!(painted(&buffer, 8), vec![(0, 0), (1, 0), (2, 0), (3, 0)]);
}

#[test]
fn shallow_line_follows_rounded_slope() {
    let mut buffer = vec![0u8; 8 * 8 * 3];
    rasterize_line(px(0, 0), px(5, 2), &mut buffer, 8);
    assert_eq!(painted(&buffer, 8), vec![(0, 0), (1, 0), (2, 1), (3, 1), (4, 2)]);
}

#[test]
fn ties_round_toward_the_start() {
    let mut buffer = vec![0u8; 8 * 8 * 3];
    rasterize_line(px(0, 0), px(4, 2), &mut buffer, 8);
    assert_eq!(painted(&buffer, 8), vec![(0, 0), (1, 0), (2, 1), (3, 1)]);
}

#[test]
fn steep_line_backwards() {
    let mut buffer = vec![0u8; 8 * 8 * 3];
    rasterize_line(px(3, 6), px(2, 1), &mut buffer, 8);
    let mut got = painted(&buffer, 8);
    got.sort_by_key(|p| p.1);
    assert_eq!(got, vec![(2, 2), (2, 3), (3, 4), (3, 5), (3, 6)]);
}

#[test]
fn degenerate_line_paints_start() {
    let mut buffer = vec![0u8; 4 * 4 * 3];
    rasterize_line(px(1, 2), px(1, 2), &mut buffer, 4);
    assert_eq!(painted(&buffer, 4), vec![(1, 2)]);
    let mut buffer = vec![0u8; 4 * 4 * 3];
    rasterize_line(px(1, 2), px(2, 2), &mut buffer, 4);
    assert_eq!(painted(&buffer, 4), vec![(1, 2)]);
}

#[test]
fn line_uses_start_colour() {
    let mut buffer = vec![0u8; 4 * 4 * 3];
    let start = Pixel { x: 0, y: 0, color: Color { r: 1, g: 2, b: 3 } };
    let end = Pixel { x: 3, y: 0, color: Color { r: 9, g: 9, b: 9 } };
    rasterize_line(start, end, &mut buffer, 4);
    assert_eq!(&buffer[0..9], &[1, 2, 3, 1, 2, 3, 1, 2, 3]);
    assert_eq!(&buffer[9..12], &[0, 0, 0]);
}

#[test]
fn face_outline_closes_the_polygon() {
    let mut buffer = vec![0u8; 6 * 6 * 3];
    let pixels = vec![px(1, 1), px(4, 1), px(4, 4), px(1, 4)];
    let face = vec![0, 1, 2, 3];
    draw_face(&face, &pixels, &mut buffer, 6);
    let got = painted(&buffer, 6);
    let mut expected = Vec::new();
    for y in 1..5 {
        for x in 1..5 {
            if x == 1 || x == 4 || y == 1 || y == 4 {
                expected.push((x, y));
            }
        }
    }
    assert_eq!(got, expected);
}

#[test]
fn canvas_new_and_clear_are_black() {
    let mut canvas = BufferCanvas::new(5);
    assert_eq!(canvas.size, 5);
    assert_eq!(canvas.buffer.len(), 75);
    assert!(canvas.buffer.iter().all(|b| *b == 0));
    canvas.put_pixel(Pixel { x: 4, y: 4, color: Color { r: 1, g: 1, b: 1 } });
    assert_eq!(&canvas.buffer[72..75], &[1, 1, 1]);
    canvas.clear();
    assert!(canvas.buffer.iter().all(|b| *b == 0));
}

#[test]
fn canvas_screen_coordinates_clamp_the_edge() {
    let canvas = BufferCanvas::new(10);
    assert_eq!(canvas.screen_x(0), 5);
    assert_eq!(canvas.screen_x(5), 9);
    assert_eq!(canvas.screen_x(-5), 0);
    assert_eq!(canvas.screen_y(0), 4);
    assert_eq!(canvas.screen_y(5), 0);
    assert_eq!(canvas.screen_y(-5), 9);
    let pixel = canvas.point_to_pixel(Point { x: 1, y: 1 }, Color { r: 3, g: 4, b: 5 });
    assert_eq!(pixel, Pixel { x: 6, y: 3, color: Color { r: 3, g: 4, b: 5 } });
}

#[test]
fn canvas_draw_point_and_line() {
    let mut canvas = BufferCanvas::new(10);
    let red = Color { r: 255, g: 0, b: 0 };
    canvas.draw_point(Point { x: 0, y: 0 }, red);
    assert_eq!(&canvas.buffer[(4 * 10 + 5) * 3..(4 * 10 + 5) * 3 + 3], &[255, 0, 0]);
    canvas.clear();
    canvas.draw_line(Point { x: -2, y: 0 }, Point { x: 2, y: 0 }, red);
    assert_eq!(painted(&canvas.buffer, 10), vec![(3, 4), (4, 4), (5, 4), (6, 4)]);
}

#[test]
fn wireframe_triangle_draws_three_sides() {
    let mut canvas = BufferCanvas::new(10);
    let white = Color { r: 255, g: 255, b: 255 };
    draw_wireframe_triangle(
        Point { x: -3, y: -3 },
        Point { x: 3, y: -3 },
        Point { x: -3, y: 3 },
        white,
        &mut canvas,
    );
    let got = painted(&canvas.buffer, 10);
    let mut expected = Vec::new();
    for x in 2..8 {
        expected.push((x, 7));
    }
    for k in 0..6 {
        expected.push((8 - k, 7 - k));
    }
    for k in 0..6 {
        expected.push((2, 1 + k));
    }
    expected.sort_by_key(|p| (p.1, p.0));
    expected.dedup();
    assert_eq!(got, expected);
}

#[test]
fn point_in_canvas_includes_border() {
    let canvas = BufferCanvas::new(10);
    assert!(is_point_in_canvas(Point { x: 5, y: -5 }, &canvas));
    assert!(!is_point_in_canvas(Point { x: 6, y: 0 }, &canvas));
    assert!(!is_point_in_canvas(Point { x: 0, y: -6 }, &canvas));
}

#[test]
fn corners_of_the_canvas_land_on_its_pixels() {
    let mut canvas = BufferCanvas::new(4);
    let red = Color { r: 255, g: 0, b: 0 };
    let corners = [(2, 2, 3, 0), (-2, 2, 0, 0), (2, -2, 3, 3), (-2, -2, 0, 3)];
    for &(x, y, col, row) in &corners {
        let point = Point { x, y };
        assert!(is_point_in_canvas(point, &canvas));
        canvas.draw_point(point, red);
        let offset = (row * 4 + col) * 3;
        assert_eq!(&canvas.buffer[offset..offset + 3], &[255, 0, 0]);
    }
    assert_eq!(canvas.buffer.iter().filter(|b| **b == 255).count(), 4);
}
