use durer::canvas::Point;
use durer::clipping::{clip_triangle_plan, ClipVertex};
use durer::triangle::{order_by_y, triangle_spans};

fn p(x: i32, y: i32) -> Point {
    Point { x, y }
}

#[test]
fn order_by_y_sorts_rows() {
    assert_eq!(order_by_y(p(0, 5), p(0, 1), p(0, 3)), (1, 2, 0));
    assert_eq!(order_by_y(p(0, 0), p(0, 1), p(0, 2)), (0, 1, 2));
    assert_eq!(order_by_y(p(0, 2), p(0, 1), p(0, 0)), (2, 1, 0));
}

#[test]
fn order_by_y_on_tied_rows() {
    // Two corners on the top row: the exchanges leave them in this order.
    assert_eq!(order_by_y(p(0, 1), p(0, 1), p(0, 0)), (2, 1, 0));
    assert_eq!(order_by_y(p(0, 1), p(0, 0), p(0, 0)), (1, 2, 0));
}

#[test]
fn spans_of_triangle_bent_to_the_right() {
    let spans = triangle_spans(p(0, 0), p(4, 2), p(0, 4));
    assert!(spans.long_side_left);
    assert_eq!(spans.x_left, vec![0, 0, 0, 0, 0]);
    assert_eq!(spans.x_right, vec![0, 2, 4, 2, 0]);
}

#[test]
fn spans_of_triangle_bent_to_the_left() {
    let spans = triangle_spans(p(0, 0), p(-4, 2), p(0, 4));
    assert!(!spans.long_side_left);
    assert_eq!(spans.x_left, vec![0, -2, -4, -2, 0]);
    assert_eq!(spans.x_right, vec![0, 0, 0, 0, 0]);
}

#[test]
fn spans_of_flat_bottomed_triangle() {
    let spans = triangle_spans(p(0, 0), p(6, 0), p(3, 3));
    assert!(spans.long_side_left);
    assert_eq!(spans.x_left, vec![0, 1, 2, 3]);
    assert_eq!(spans.x_right, vec![6, 5, 4, 3]);
}

#[test]
fn spans_of_single_row_triangle() {
    let spans = triangle_spans(p(2, 7), p(5, 7), p(9, 7));
    assert_eq!(spans.x_left.len(), 1);
    assert_eq!(spans.x_right.len(), 1);
    assert!(spans.long_side_left);
    assert_eq!(spans.x_left, vec![2]);
    assert_eq!(spans.x_right, vec![5]);
}

#[test]
fn clip_plan_keeps_inside_triangle() {
    let plan = clip_triangle_plan(true, true, true);
    assert_eq!(plan, vec![(ClipVertex::Corner(0), ClipVertex::Corner(1), ClipVertex::Corner(2))]);
}

#[test]
fn clip_plan_drops_outside_triangle() {
    assert!(clip_triangle_plan(false, false, false).is_empty());
}

#[test]
fn clip_plan_with_one_corner_inside() {
    let plan = clip_triangle_plan(true, false, false);
    assert_eq!(
        plan,
        vec![(ClipVertex::Corner(0), ClipVertex::Split(0, 1), ClipVertex::Split(2, 0))]
    );
}

#[test]
fn clip_plan_with_two_corners_inside() {
    let plan = clip_triangle_plan(true, true, false);
    assert_eq!(
        plan,
        vec![
            (ClipVertex::Corner(0), ClipVertex::Corner(1), ClipVertex::Split(1, 2)),
            (ClipVertex::Corner(0), ClipVertex::Split(1, 2), ClipVertex::Split(2, 0)),
        ]
    );
    let plan = clip_triangle_plan(false, true, true);
    assert_eq!(
        plan,
        vec![
            (ClipVertex::Split(0, 1), ClipVertex::Corner(1), ClipVertex::Corner(2)),
            (ClipVertex::Split(0, 1), ClipVertex::Corner(2), ClipVertex::Split(2, 0)),
        ]
    );
}

#[test]
fn clip_plan_has_one_or_two_triangles_when_mixed() {
    for mask in 1..7u8 {
        let inside = [mask & 1 != 0, mask & 2 != 0, mask & 4 != 0];
        let plan = clip_triangle_plan(inside[0], inside[1], inside[2]);
        let count = inside.iter().filter(|b| **b).count();
        assert_eq!(plan.len(), count);
    }
}
