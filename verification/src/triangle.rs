use vstd::prelude::*;
use crate::canvas::Point;
use crate::interpolation::{
    interpolate_int,
    interpolate_int_spec,
    interpolated_value,
    interpolation_endpoints_and_monotone,
};

verus! {

// ---------------------------------------------------------------------------------
// Ordering the corners of a triangle by row.
// ---------------------------------------------------------------------------------

/// One compare-exchange of a sorting network over three corners: positions `i` and `j`
/// of `order` change places when the corner named at `j` lies on a lower row than the
/// corner named at `i`.
pub open spec fn exchange_if_lower(order: Seq<int>, ys: Seq<int>, i: int, j: int) -> Seq<int> {
    if ys[order[j]] < ys[order[i]] {
        order.update(i, order[j]).update(j, order[i])
    } else {
        order
    }
}

/// The corners `0, 1, 2` of a triangle whose rows are `ys`, after compare-exchanges of
/// positions (0, 1), (0, 2) and (1, 2), in that order.
pub open spec fn y_order(ys: Seq<int>) -> Seq<int> {
    exchange_if_lower(
        exchange_if_lower(exchange_if_lower(seq![0int, 1int, 2int], ys, 0, 1), ys, 0, 2),
        ys,
        1,
        2,
    )
}

/// The three compare-exchanges put every corner exactly once, lowest row first.
pub proof fn y_order_sorts(ys: Seq<int>)
    requires
        ys.len() == 3,
    ensures
        y_order(ys).len() == 3,
        forall|k: int| 0 <= k < 3 ==> 0 <= #[trigger] y_order(ys)[k] < 3,
        y_order(ys)[0] != y_order(ys)[1],
        y_order(ys)[0] != y_order(ys)[2],
        y_order(ys)[1] != y_order(ys)[2],
        ys[y_order(ys)[0]] <= ys[y_order(ys)[1]] <= ys[y_order(ys)[2]],
{
}

/// The corners of the triangle `p0`, `p1`, `p2`, numbered 0 to 2, from the lowest row to
/// the highest, as the compare-exchanges of [`y_order`] leave them.
pub fn order_by_y(p0: Point, p1: Point, p2: Point) -> (order: (usize, usize, usize))
    ensures
        seq![order.0 as int, order.1 as int, order.2 as int] == y_order(
            seq![p0.y as int, p1.y as int, p2.y as int],
        ),
{
    let ghost ys = seq![p0.y as int, p1.y as int, p2.y as int];
    let mut a: usize = 0;
    let mut b: usize = 1;
    let mut c: usize = 2;
    let mut ya: i32 = p0.y;
    let mut yb: i32 = p1.y;
    let mut yc: i32 = p2.y;
    let ghost step0 = seq![0int, 1int, 2int];
    if yb < ya {
        let t = a;
        a = b;
        b = t;
        let ty = ya;
        ya = yb;
        yb = ty;
    }
    let ghost step1 = exchange_if_lower(step0, ys, 0, 1);
    assert(seq![a as int, b as int, c as int] =~= step1);
    if yc < ya {
        let t = a;
        a = c;
        c = t;
        let ty = ya;
        ya = yc;
        yc = ty;
    }
    let ghost step2 = exchange_if_lower(step1, ys, 0, 2);
    assert(seq![a as int, b as int, c as int] =~= step2);
    if yc < yb {
        let t = b;
        b = c;
        c = t;
    }
    assert(seq![a as int, b as int, c as int] =~= exchange_if_lower(step2, ys, 1, 2));
    (a, b, c)
}

// ---------------------------------------------------------------------------------
// Left and right boundaries of a filled triangle.
// ---------------------------------------------------------------------------------

/// Columns, row by row from `a` up to `b`, of the edge from `a` to `b`.
pub open spec fn edge_columns(a: Point, b: Point) -> Seq<int> {
    interpolate_int_spec(a.y as int, a.x as int, b.y as int, b.x as int)
}

/// Columns of the bent side `p0` → `p1` → `p2`, the row of `p1` counted once.
pub open spec fn bent_side_columns(p0: Point, p1: Point, p2: Point) -> Seq<int> {
    edge_columns(p0, p1).drop_last() + edge_columns(p1, p2)
}

/// Whether the long edge `p0` → `p2` bounds the triangle on the left: it does when, on the
/// middle row of the triangle, it lies strictly left of the bent side.
pub open spec fn long_side_on_left(p0: Point, p1: Point, p2: Point) -> bool {
    let long = edge_columns(p0, p2);
    let m = long.len() / 2;
    long[m as int] < bent_side_columns(p0, p1, p2)[m as int]
}

/// Whether the corners come lowest row first and the edge interpolations stay inside
/// `i32`.
pub open spec fn spans_computable(p0: Point, p1: Point, p2: Point) -> bool {
    &&& p0.y <= p1.y <= p2.y
    &&& p2.y < i32::MAX
    &&& p2.y - p0.y <= i32::MAX
    &&& p0.y != p1.y ==> i32::MIN <= p1.x - p0.x <= i32::MAX
    &&& p1.y != p2.y ==> i32::MIN <= p2.x - p1.x <= i32::MAX
    &&& p0.y != p2.y ==> i32::MIN <= p2.x - p0.x <= i32::MAX
}

/// Both sides of a triangle cover the same rows, from the row of `p0` to that of `p2`;
/// both start at `p0` (the bent side at `p1` when `p1` shares the bottom row) and end at
/// `p2` (the bent side at `p1` when `p1` shares the top row), and the bent side passes
/// through `p1`. A triangle on a single row is the single column of `p0` on the long edge.
pub proof fn triangle_sides_meet_at_corners(p0: Point, p1: Point, p2: Point)
    requires
        p0.y <= p1.y <= p2.y,
    ensures
        edge_columns(p0, p2).len() == p2.y - p0.y + 1,
        bent_side_columns(p0, p1, p2).len() == p2.y - p0.y + 1,
        edge_columns(p0, p2)[0] == p0.x,
        p0.y < p2.y ==> edge_columns(p0, p2)[p2.y - p0.y] == p2.x,
        bent_side_columns(p0, p1, p2)[p1.y - p0.y] == p1.x,
        p1.y < p2.y ==> bent_side_columns(p0, p1, p2)[p2.y - p0.y] == p2.x,
        p0.y < p1.y ==> bent_side_columns(p0, p1, p2)[0] == p0.x,
        p0.y == p1.y ==> bent_side_columns(p0, p1, p2)[0] == p1.x,
{
    lemma_edge_columns(p0, p1);
    lemma_edge_columns(p1, p2);
    lemma_edge_columns(p0, p2);
    let e01 = edge_columns(p0, p1);
    let e12 = edge_columns(p1, p2);
    let bent = bent_side_columns(p0, p1, p2);
    assert(bent[p1.y - p0.y] == e12[0]);
    assert(bent[p2.y - p0.y] == e12[p2.y - p1.y]);
    if p0.y < p1.y {
        assert(bent[0] == e01[0]);
    } else {
        assert(bent[0] == e12[0]);
    }
}

/// An edge covers the rows from `a` to `b` and runs from column `a.x` to column `b.x`.
proof fn lemma_edge_columns(a: Point, b: Point)
    requires
        a.y <= b.y,
    ensures
        edge_columns(a, b).len() == b.y - a.y + 1,
        edge_columns(a, b)[0] == a.x,
        a.y < b.y ==> edge_columns(a, b)[b.y - a.y] == b.x,
{
    if a.y < b.y {
        interpolation_endpoints_and_monotone(a.y as int, a.x as int, b.y as int, b.x as int, 0, 0);
        assert(edge_columns(a, b)[0] == interpolated_value(
            a.y as int,
            a.x as int,
            b.y as int,
            b.x as int,
            0,
        ));
        assert(edge_columns(a, b)[b.y - a.y] == interpolated_value(
            a.y as int,
            a.x as int,
            b.y as int,
            b.x as int,
            b.y - a.y,
        ));
    }
}

/// The rows a filled triangle covers, as its left and right boundary columns.
pub struct TriangleSpans {
    /// Leftmost column of each row, from the row of the lowest corner up.
    pub x_left: Vec<i32>,
    /// Rightmost column of each row, from the row of the lowest corner up.
    pub x_right: Vec<i32>,
    /// Whether the long edge, from the lowest corner to the highest, is the left boundary.
    pub long_side_left: bool,
}

/// Boundaries of the filled triangle `p0`, `p1`, `p2` (lowest row first): the columns of
/// the long edge `p0` → `p2` and of the bent side `p0` → `p1` → `p2`, row by row, the one
/// lying further left on the middle row being the left boundary (the bent side when they
/// meet there).
pub fn triangle_spans(p0: Point, p1: Point, p2: Point) -> (spans: TriangleSpans)
    requires
        spans_computable(p0, p1, p2),
    ensures
        spans.long_side_left == long_side_on_left(p0, p1, p2),
        spans.x_left@.map_values(|v: i32| v as int) == if spans.long_side_left {
            edge_columns(p0, p2)
        } else {
            bent_side_columns(p0, p1, p2)
        },
        spans.x_right@.map_values(|v: i32| v as int) == if spans.long_side_left {
            bent_side_columns(p0, p1, p2)
        } else {
            edge_columns(p0, p2)
        },
        spans.x_left@.len() == p2.y - p0.y + 1,
        spans.x_right@.len() == p2.y - p0.y + 1,
        spans.x_left@[(p2.y - p0.y + 1) / 2] <= spans.x_right@[(p2.y - p0.y + 1) / 2],
{
    proof {
        triangle_sides_meet_at_corners(p0, p1, p2);
    }
    let mut x01 = interpolate_int(p0.y, p0.x, p1.y, p1.x);
    let mut x12 = interpolate_int(p1.y, p1.x, p2.y, p2.x);
    let x02 = interpolate_int(p0.y, p0.x, p2.y, p2.x);
    let ghost e01 = x01@;
    let ghost e12 = x12@;
    proof {
        assert(e01.map_values(|v: i32| v as int).len() == e01.len());
    }
    x01.pop();
    let mut x012: Vec<i32> = Vec::new();
    x012.append(&mut x01);
    x012.append(&mut x12);
    let ghost bent = bent_side_columns(p0, p1, p2);
    let ghost long = edge_columns(p0, p2);
    proof {
        assert(x012@ =~= e01.drop_last() + e12);
        assert(x012@.map_values(|v: i32| v as int) =~= bent) by {
            assert(e01.map_values(|v: i32| v as int) == edge_columns(p0, p1));
            assert(e12.map_values(|v: i32| v as int) == edge_columns(p1, p2));
            assert forall|k: int| 0 <= k < x012@.len() implies #[trigger] x012@[k] as int
                == bent[k] by {
                if k < e01.len() - 1 {
                    assert(x012@[k] == e01[k]);
                    assert(e01.map_values(|v: i32| v as int)[k] == e01[k] as int);
                } else {
                    assert(x012@[k] == e12[k - (e01.len() - 1)]);
                    assert(e12.map_values(|v: i32| v as int)[k - (e01.len() - 1)] == e12[k
                        - (e01.len() - 1)] as int);
                }
            }
        }
        assert(x02@.map_values(|v: i32| v as int) == long);
    }
    let m = x02.len() / 2;
    proof {
        assert(x02@.map_values(|v: i32| v as int)[m as int] == x02@[m as int] as int);
        assert(x012@.map_values(|v: i32| v as int)[m as int] == x012@[m as int] as int);
    }
    if x02[m] < x012[m] {
        TriangleSpans { x_left: x02, x_right: x012, long_side_left: true }
    } else {
        TriangleSpans { x_left: x012, x_right: x02, long_side_left: false }
    }
}

} // verus!
