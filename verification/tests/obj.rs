use durer::obj::{index_corners, parse_face, parse_obj_index, triangulate_face, OBJIndex};

fn corner(v: i32, t: i32, n: i32) -> OBJIndex {
    OBJIndex::new(v, t, n)
}

#[test]
fn parse_full_corner() {
    let mut has_tex = false;
    let mut has_normals = false;
    let index = parse_obj_index("3/1/2", &mut has_tex, &mut has_normals);
    assert_eq!(index, corner(2, 0, 1));
    assert!(has_tex);
    assert!(has_normals);
}

#[test]
fn parse_position_only() {
    let mut has_tex = false;
    let mut has_normals = false;
    assert_eq!(parse_obj_index("5", &mut has_tex, &mut has_normals), corner(4, -1, -1));
    assert!(!has_tex);
    assert!(!has_normals);
}

#[test]
fn parse_position_and_normal() {
    let mut has_tex = false;
    let mut has_normals = false;
    assert_eq!(parse_obj_index("5//7", &mut has_tex, &mut has_normals), corner(4, -1, 6));
    assert!(!has_tex);
    assert!(has_normals);
}

#[test]
fn parse_keeps_flags_already_set() {
    let mut has_tex = true;
    let mut has_normals = true;
    assert_eq!(parse_obj_index("1", &mut has_tex, &mut has_normals), corner(0, -1, -1));
    assert!(has_tex);
    assert!(has_normals);
}

#[test]
fn parse_signs_and_bad_numbers() {
    let mut has_tex = false;
    let mut has_normals = false;
    assert_eq!(parse_obj_index("+3/-1/x", &mut has_tex, &mut has_normals), corner(2, -2, -1));
    assert!(has_tex);
    assert!(has_normals);
    assert_eq!(parse_obj_index("2147483648", &mut has_tex, &mut has_normals), corner(-1, -1, -1));
    assert_eq!(parse_obj_index("2147483647", &mut has_tex, &mut has_normals), corner(2147483646, -1, -1));
    assert_eq!(parse_obj_index("-", &mut has_tex, &mut has_normals), corner(-1, -1, -1));
    assert_eq!(parse_obj_index("", &mut has_tex, &mut has_normals), corner(-1, -1, -1));
    assert_eq!(parse_obj_index("1 ", &mut has_tex, &mut has_normals), corner(-1, -1, -1));
}

#[test]
fn parse_face_line_tokens() {
    let tokens: Vec<String> = vec!["f".to_string(), "1/1".to_string(), "2/2".to_string(), "3//3".to_string()];
    let mut has_tex = false;
    let mut has_normals = false;
    let corners = parse_face(&tokens, &mut has_tex, &mut has_normals);
    assert_eq!(corners, vec![corner(0, 0, -1), corner(1, 1, -1), corner(2, -1, 2)]);
    assert!(has_tex);
    assert!(has_normals);
}

#[test]
fn quad_becomes_two_triangles() {
    let face = vec![corner(0, -1, -1), corner(1, -1, -1), corner(2, -1, -1), corner(3, -1, -1)];
    let mut indices = vec![corner(9, 9, 9)];
    triangulate_face(&mut indices, &face);
    assert_eq!(
        indices,
        vec![corner(9, 9, 9), face[0], face[1], face[2], face[0], face[2], face[3]]
    );
}

#[test]
fn short_faces_give_no_triangles() {
    let mut indices = Vec::new();
    triangulate_face(&mut indices, &vec![corner(0, 0, 0)]);
    triangulate_face(&mut indices, &vec![corner(0, 0, 0), corner(1, 1, 1)]);
    assert!(indices.is_empty());
}

#[test]
fn corners_are_indexed_in_order_of_first_use() {
    let a = corner(0, 0, 0);
    let b = corner(1, 1, 1);
    let c = corner(0, 2, 2);
    let d = corner(2, -1, -1);
    let list = vec![a, b, c, a, d, b];
    let indexing = index_corners(&list);
    assert_eq!(indexing.model_corners, vec![a, b, c, d]);
    assert_eq!(indexing.model_indices, vec![0, 1, 2, 0, 3, 1]);
    assert_eq!(indexing.position_vertices, vec![0, 1, 2]);
    assert_eq!(indexing.position_indices, vec![0, 1, 0, 0, 2, 1]);
    assert_eq!(indexing.model_to_position, vec![0, 1, 0, 2]);
}
