use durer::bitmap::{create_random_texture, texture_from_channels};
use durer::mesh::sphere_triangles;
use durer::obj::{classify_obj_line, ObjLine};

fn tokens(words: &[&str]) -> Vec<String> {
    words.iter().map(|w| w.to_string()).collect()
}

#[test]
fn texture_from_channels_lays_out_pixels_row_by_row() {
    let channels: Vec<u8> = (0..12).collect();
    let texture = texture_from_channels(2, 2, channels.clone());
    assert_eq!(texture.width, 2);
    assert_eq!(texture.height, 2);
    assert_eq!(texture.buffer, channels);
}

#[test]
fn random_texture_holds_every_pixel() {
    let texture = create_random_texture(3, 5);
    assert_eq!((texture.width, texture.height), (3, 5));
    assert_eq!(texture.buffer.len(), 45);
}

#[test]
fn obj_lines_are_classified_by_keyword() {
    assert_eq!(classify_obj_line(&tokens(&["v", "1", "2", "3"])), ObjLine::Position);
    assert_eq!(classify_obj_line(&tokens(&["vt", "0.5", "1"])), ObjLine::TexCoord);
    assert_eq!(classify_obj_line(&tokens(&["vn", "0", "1", "0"])), ObjLine::Normal);
    assert_eq!(classify_obj_line(&tokens(&["f", "1", "2", "3"])), ObjLine::Face);
    assert_eq!(classify_obj_line(&tokens(&["f"])), ObjLine::Face);
}

#[test]
fn obj_lines_without_enough_numbers_or_known_keyword_are_ignored() {
    assert_eq!(classify_obj_line(&tokens(&[])), ObjLine::Ignored);
    assert_eq!(classify_obj_line(&tokens(&["#", "v", "1", "2", "3"])), ObjLine::Ignored);
    assert_eq!(classify_obj_line(&tokens(&["v", "1", "2"])), ObjLine::Ignored);
    assert_eq!(classify_obj_line(&tokens(&["vt", "1"])), ObjLine::Ignored);
    assert_eq!(classify_obj_line(&tokens(&["vn", "1", "2"])), ObjLine::Ignored);
    assert_eq!(classify_obj_line(&tokens(&["vp", "1", "2", "3"])), ObjLine::Ignored);
    assert_eq!(classify_obj_line(&tokens(&["V", "1", "2", "3"])), ObjLine::Ignored);
}

#[test]
fn smallest_sphere_is_two_caps() {
    let triangles = sphere_triangles(3);
    assert_eq!(
        triangles,
        vec![(0, 2, 3), (0, 3, 4), (0, 4, 2), (1, 3, 2), (1, 4, 3), (1, 2, 4)]
    );
}

#[test]
fn sphere_with_two_rings_has_one_band() {
    let triangles = sphere_triangles(4);
    assert_eq!(triangles.len(), 16);
    assert_eq!(&triangles[..4], &[(0, 2, 3), (0, 3, 4), (0, 4, 5), (0, 5, 2)]);
    assert_eq!(&triangles[4..8], &[(2, 3, 7), (2, 7, 6), (3, 4, 8), (3, 8, 7)]);
    assert_eq!(&triangles[10..12], &[(5, 2, 6), (5, 6, 9)]);
    assert_eq!(&triangles[12..], &[(1, 7, 6), (1, 8, 7), (1, 9, 8), (1, 6, 9)]);
}

#[test]
fn sphere_triangles_name_existing_vertices() {
    for divs in 3..12 {
        let triangles = sphere_triangles(divs);
        let n = divs as usize;
        let vertices = 2 + (n / 2) * n;
        assert_eq!(triangles.len(), 2 * n * (n / 2));
        for (a, b, c) in triangles {
            assert!(a < vertices && b < vertices && c < vertices);
        }
    }
}
