use durer::bitmap::create_random_texture;
use durer::obj::remove_empty_strings;
use durer::ply2::{parse_ply2_count, parse_ply2_face, Ply2Part, Ply2Progress};

#[test]
fn counts_are_trimmed_numbers() {
    assert_eq!(parse_ply2_count("  42\r"), Some(42));
    assert_eq!(parse_ply2_count("\u{3000}-7\t"), Some(-7));
    assert_eq!(parse_ply2_count("4 2"), None);
    assert_eq!(parse_ply2_count(""), None);
}

#[test]
fn face_lines_give_counted_vertices() {
    assert_eq!(parse_ply2_face("3 0 1 2"), Some(vec![0, 1, 2]));
    assert_eq!(parse_ply2_face(" 3 4 5 6 7 \n"), Some(vec![4, 5, 6]));
    assert_eq!(parse_ply2_face("0"), Some(vec![]));
    assert_eq!(parse_ply2_face("-2 1"), Some(vec![]));
}

#[test]
fn bad_face_lines_are_refused() {
    assert_eq!(parse_ply2_face("4 0 1 2"), None);
    assert_eq!(parse_ply2_face("3 0  1 2"), None);
    assert_eq!(parse_ply2_face("3 0 x 2"), None);
    assert_eq!(parse_ply2_face("2147483647 1"), None);
}

#[test]
fn progress_walks_through_the_parts() {
    let mut progress = Ply2Progress::new();
    assert_eq!(progress.part(), Some(Ply2Part::NumVertices));
    progress.record_num_vertices(2);
    assert_eq!(progress.part(), Some(Ply2Part::NumFaces));
    progress.record_num_faces(1);
    assert_eq!(progress.part(), Some(Ply2Part::Vertices));
    progress.record_vertex();
    assert_eq!(progress.part(), Some(Ply2Part::Vertices));
    progress.record_vertex();
    assert_eq!(progress.part(), Some(Ply2Part::Faces));
    progress.record_face();
    assert_eq!(progress.part(), None);
    assert_eq!(progress.current_vertex, 2);
    assert_eq!(progress.current_face, 1);
}

#[test]
fn empty_tokens_are_dropped() {
    let tokens = vec!["v".to_string(), String::new(), "1.0".to_string(), String::new()];
    assert_eq!(remove_empty_strings(&tokens), vec!["v".to_string(), "1.0".to_string()]);
}

#[test]
fn random_texture_has_requested_size() {
    let texture = create_random_texture(5, 3);
    assert_eq!(texture.width, 5);
    assert_eq!(texture.height, 3);
    assert_eq!(texture.buffer.len(), 45);
}
