use vstd::prelude::*;

verus! {

/// A vertex of a triangle clipped against a plane, named by where it comes from.
#[derive(Copy, Clone, Debug, PartialEq, Eq, Structural)]
pub enum ClipVertex {
    /// Corner `k` (0, 1 or 2) of the original triangle, which lies inside the plane.
    Corner(usize),
    /// The point where the edge from corner `from` to corner `to` crosses the plane.
    Split(usize, usize),
}

/// The corner after corner `k`, going round the triangle.
pub open spec fn next_corner(k: int) -> int {
    if k == 2 {
        0
    } else {
        k + 1
    }
}

/// What corner `k` contributes to the clipped polygon: itself when it is inside, then
/// the crossing point of the edge to the next corner when that edge crosses the plane.
pub open spec fn corner_contribution(inside: Seq<bool>, k: int) -> Seq<ClipVertex> {
    let own = if inside[k] {
        seq![ClipVertex::Corner(k as usize)]
    } else {
        Seq::empty()
    };
    let split = if inside[k] != inside[next_corner(k)] {
        seq![ClipVertex::Split(k as usize, next_corner(k) as usize)]
    } else {
        Seq::empty()
    };
    own + split
}

/// The part of the triangle inside the plane, as a polygon walked round from corner 0.
pub open spec fn clipped_polygon(inside: Seq<bool>) -> Seq<ClipVertex> {
    corner_contribution(inside, 0) + corner_contribution(inside, 1) + corner_contribution(
        inside,
        2,
    )
}

/// Number of corners inside the plane.
pub open spec fn inside_count(inside: Seq<bool>) -> int {
    (if inside[0] {
        1int
    } else {
        0int
    }) + (if inside[1] {
        1int
    } else {
        0int
    }) + (if inside[2] {
        1int
    } else {
        0int
    })
}

/// The triangles a clipped triangle is drawn as: the triangle itself when all corners are
/// inside, nothing when none is, and otherwise a fan over the clipped polygon from its
/// first vertex.
pub open spec fn clip_plan_spec(inside: Seq<bool>) -> Seq<(ClipVertex, ClipVertex, ClipVertex)> {
    let poly = clipped_polygon(inside);
    if inside[0] && inside[1] && inside[2] {
        seq![(ClipVertex::Corner(0), ClipVertex::Corner(1), ClipVertex::Corner(2))]
    } else if !inside[0] && !inside[1] && !inside[2] {
        Seq::empty()
    } else if poly.len() == 4 {
        seq![(poly[0], poly[1], poly[2]), (poly[0], poly[2], poly[3])]
    } else {
        seq![(poly[0], poly[1], poly[2])]
    }
}

/// A triangle with some corners inside the plane and some outside is clipped to a
/// polygon of two more vertices than it has corners inside: a triangle (one corner
/// inside) or a quadrilateral (two inside), never anything else. Its vertices are the
/// inside corners and the crossings of the two edges that leave the inside.
pub proof fn clipped_polygon_has_three_or_four_vertices(inside: Seq<bool>)
    requires
        inside.len() == 3,
        inside[0] || inside[1] || inside[2],
        !(inside[0] && inside[1] && inside[2]),
    ensures
        clipped_polygon(inside).len() == inside_count(inside) + 2,
        clipped_polygon(inside).len() == 3 || clipped_polygon(inside).len() == 4,
        forall|i: int|
            0 <= i < clipped_polygon(inside).len() ==> match #[trigger] clipped_polygon(inside)[i] {
                ClipVertex::Corner(k) => k < 3 && inside[k as int],
                ClipVertex::Split(a, b) => a < 3 && b as int == next_corner(a as int)
                    && inside[a as int] != inside[b as int],
            },
{
    let c0 = corner_contribution(inside, 0);
    let c1 = corner_contribution(inside, 1);
    let c2 = corner_contribution(inside, 2);
    let poly = clipped_polygon(inside);
    assert(poly =~= c0 + c1 + c2);
    assert forall|i: int| 0 <= i < poly.len() implies match #[trigger] poly[i] {
        ClipVertex::Corner(k) => k < 3 && inside[k as int],
        ClipVertex::Split(a, b) => a < 3 && b as int == next_corner(a as int) && inside[a as int]
            != inside[b as int],
    } by {
        if i < c0.len() {
            assert(poly[i] == c0[i]);
        } else if i < c0.len() + c1.len() {
            assert(poly[i] == c1[i - c0.len()]);
        } else {
            assert(poly[i] == c2[i - c0.len() - c1.len()]);
        }
    }
}

/// The triangles that replace a triangle clipped against a plane, given which of its
/// corners (0, 1, 2) lie inside the plane: the whole triangle, nothing, one triangle or
/// two, their vertices named as corners of the original triangle or crossings of its
/// edges with the plane.
pub fn clip_triangle_plan(a_inside: bool, b_inside: bool, c_inside: bool) -> (triangles: Vec<
    (ClipVertex, ClipVertex, ClipVertex),
>)
    ensures
        triangles@ == clip_plan_spec(seq![a_inside, b_inside, c_inside]),
{
    let ghost inside = seq![a_inside, b_inside, c_inside];
    let mut result: Vec<(ClipVertex, ClipVertex, ClipVertex)> = Vec::new();
    if a_inside && b_inside && c_inside {
        result.push((ClipVertex::Corner(0), ClipVertex::Corner(1), ClipVertex::Corner(2)));
        assert(result@ =~= clip_plan_spec(inside));
    } else if a_inside || b_inside || c_inside {
        let mut points: Vec<ClipVertex> = Vec::new();
        if a_inside {
            points.push(ClipVertex::Corner(0));
        }
        if a_inside != b_inside {
            points.push(ClipVertex::Split(0, 1));
        }
        assert(points@ =~= corner_contribution(inside, 0));
        let ghost after_a = points@;
        if b_inside {
            points.push(ClipVertex::Corner(1));
        }
        if b_inside != c_inside {
            points.push(ClipVertex::Split(1, 2));
        }
        assert(points@ =~= after_a + corner_contribution(inside, 1));
        let ghost after_b = points@;
        if c_inside {
            points.push(ClipVertex::Corner(2));
        }
        if c_inside != a_inside {
            points.push(ClipVertex::Split(2, 0));
        }
        assert(points@ =~= after_b + corner_contribution(inside, 2));
        assert(points@ =~= clipped_polygon(inside));
        proof {
            clipped_polygon_has_three_or_four_vertices(inside);
        }
        if points.len() == 4 {
            result.push((points[0], points[1], points[2]));
            result.push((points[0], points[2], points[3]));
        } else {
            result.push((points[0], points[1], points[2]));
        }
        assert(result@ =~= clip_plan_spec(inside));
    } else {
        assert(result@ =~= clip_plan_spec(inside));
    }
    result
}

/// Where a clipped-polygon vertex lies on the boundary of the original triangle, walked
/// round from corner 0: corner `k` at `2k`, the crossing on the edge leaving corner `k`
/// at `2k + 1`.
pub open spec fn boundary_position(v: ClipVertex) -> int {
    match v {
        ClipVertex::Corner(k) => 2 * k,
        ClipVertex::Split(k, _) => 2 * k + 1,
    }
}

/// A clipped triangle is redrawn with the winding of the original triangle: the clipped
/// polygon visits the boundary of the triangle in the order of its corners, and the
/// triangles of the plan are the fan over that polygon from its first vertex, triangle
/// `t` being polygon vertices `0`, `t + 1`, `t + 2`, so that they cover the polygon
/// without overlap and each lists its vertices in the polygon's cyclic order. A polygon
/// of fewer than three vertices (every corner outside) gives no triangle. Every corner
/// inside the plane and the crossing of every edge with one end on each side are
/// vertices of the polygon.
pub proof fn clip_plan_is_fan_over_clipped_polygon(inside: Seq<bool>)
    requires
        inside.len() == 3,
    ensures
        forall|i: int, j: int|
            0 <= i < j < clipped_polygon(inside).len() ==> boundary_position(
                #[trigger] clipped_polygon(inside)[i],
            ) < boundary_position(#[trigger] clipped_polygon(inside)[j]),
        forall|k: int|
            0 <= k < 3 && inside[k] ==> #[trigger] clipped_polygon(inside).contains(
                ClipVertex::Corner(k as usize),
            ),
        forall|k: int|
            0 <= k < 3 && inside[k] != inside[next_corner(k)] ==> #[trigger] clipped_polygon(
                inside,
            ).contains(ClipVertex::Split(k as usize, next_corner(k) as usize)),
        clipped_polygon(inside).len() < 3 ==> clip_plan_spec(inside).len() == 0,
        clipped_polygon(inside).len() >= 3 ==> clip_plan_spec(inside).len() == clipped_polygon(
            inside,
        ).len() - 2,
        forall|t: int|
            0 <= t < clip_plan_spec(inside).len() ==> #[trigger] clip_plan_spec(inside)[t] == (
                clipped_polygon(inside)[0],
                clipped_polygon(inside)[t + 1],
                clipped_polygon(inside)[t + 2],
            ),
{
    let c0 = corner_contribution(inside, 0);
    let c1 = corner_contribution(inside, 1);
    let c2 = corner_contribution(inside, 2);
    let poly = clipped_polygon(inside);
    assert(poly =~= c0 + c1 + c2);
    assert forall|i: int| 0 <= i < poly.len() implies 0 <= boundary_position(#[trigger] poly[i])
        && (i < c0.len() ==> boundary_position(poly[i]) < 2) && (c0.len() <= i < c0.len() + c1.len()
        ==> 2 <= boundary_position(poly[i]) < 4) && (c0.len() + c1.len() <= i ==> 4
        <= boundary_position(poly[i]) < 6) by {
        if i < c0.len() {
            assert(poly[i] == c0[i]);
        } else if i < c0.len() + c1.len() {
            assert(poly[i] == c1[i - c0.len()]);
        } else {
            assert(poly[i] == c2[i - c0.len() - c1.len()]);
        }
    }
    assert forall|i: int, j: int| 0 <= i < j < poly.len() implies boundary_position(
        #[trigger] poly[i],
    ) < boundary_position(#[trigger] poly[j]) by {
        if i < c0.len() && j < c0.len() {
            assert(poly[i] == c0[i] && poly[j] == c0[j]);
        } else if c0.len() <= i && j < c0.len() + c1.len() {
            assert(poly[i] == c1[i - c0.len()] && poly[j] == c1[j - c0.len()]);
        } else if c0.len() + c1.len() <= i {
            assert(poly[i] == c2[i - c0.len() - c1.len()] && poly[j] == c2[j - c0.len() - c1.len()]);
        }
    }
    assert forall|k: int| 0 <= k < 3 && inside[k] implies #[trigger] poly.contains(
        ClipVertex::Corner(k as usize),
    ) by {
        if k == 0 {
            assert(poly[0] == ClipVertex::Corner(0));
        } else if k == 1 {
            assert(poly[c0.len() as int] == ClipVertex::Corner(1));
        } else {
            assert(poly[(c0.len() + c1.len()) as int] == ClipVertex::Corner(2));
        }
    }
    assert forall|k: int| 0 <= k < 3 && inside[k] != inside[next_corner(k)] implies #[trigger] poly.contains(
        ClipVertex::Split(k as usize, next_corner(k) as usize),
    ) by {
        if k == 0 {
            assert(poly[c0.len() - 1] == c0[c0.len() - 1]);
        } else if k == 1 {
            assert(poly[c0.len() + c1.len() - 1] == c1[c1.len() - 1]);
        } else {
            assert(poly[poly.len() - 1] == c2[c2.len() - 1]);
        }
    }
    if inside[0] || inside[1] || inside[2] {
        if !(inside[0] && inside[1] && inside[2]) {
            clipped_polygon_has_three_or_four_vertices(inside);
        } else {
            assert(poly =~= seq![ClipVertex::Corner(0), ClipVertex::Corner(1), ClipVertex::Corner(2)]);
        }
    } else {
        assert(poly.len() == 0);
    }
}

} // verus!
