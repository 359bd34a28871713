use vstd::prelude::*;
use crate::pixels::Color;

verus! {

/// Adds two colours channel by channel.
pub fn add_colors(color1: Color, color2: Color) -> (sum: Color)
    requires
        color1.r + color2.r <= 255,
        color1.g + color2.g <= 255,
        color1.b + color2.b <= 255,
    ensures
        sum.r == color1.r + color2.r,
        sum.g == color1.g + color2.g,
        sum.b == color1.b + color2.b,
{
    Color { r: color1.r + color2.r, g: color1.g + color2.g, b: color1.b + color2.b }
}

/// How a constructive-solid-geometry node combines its two operands.
#[derive(Copy, Clone, Debug, PartialEq, Eq, Structural)]
pub enum CSGOperation {
    Union,
    Intersection,
    Difference,
}

/// Whether a point that is (or is not) inside the left and the right operand is inside
/// their combination.
pub open spec fn inside_csg(in_left: bool, in_right: bool, op: CSGOperation) -> bool {
    match op {
        CSGOperation::Union => in_left || in_right,
        CSGOperation::Intersection => in_left && in_right,
        CSGOperation::Difference => in_left && !in_right,
    }
}

/// Whether a point inside the left operand iff `in_left`, and inside the right operand
/// iff `in_right`, is inside the combination `op` of the two.
pub fn is_inside_csg(in_left: bool, in_right: bool, op: &CSGOperation) -> (inside: bool)
    ensures
        inside == inside_csg(in_left, in_right, *op),
{
    match op {
        CSGOperation::Union => in_left || in_right,
        CSGOperation::Intersection => in_left && in_right,
        CSGOperation::Difference => in_left && !in_right,
    }
}

/// A surface crossing of a CSG combination: the index of the ray event where the ray
/// enters or leaves the combination, and whether the normal of that event's hit must
/// be flipped to point out of the combination.
#[derive(Copy, Clone, Debug, PartialEq, Eq, Structural)]
pub struct CsgCrossing {
    pub event: usize,
    pub flip_normal: bool,
}

/// Whether the ray is inside the left operand after the first `k` events; `events[i]`
/// is true for a surface hit of the left operand, false for one of the right operand,
/// and every hit toggles being inside that operand.
pub open spec fn in_left_after(events: Seq<bool>, k: int) -> bool
    decreases k,
{
    if k <= 0 {
        false
    } else if events[k - 1] {
        !in_left_after(events, k - 1)
    } else {
        in_left_after(events, k - 1)
    }
}

/// Whether the ray is inside the right operand after the first `k` events.
pub open spec fn in_right_after(events: Seq<bool>, k: int) -> bool
    decreases k,
{
    if k <= 0 {
        false
    } else if !events[k - 1] {
        !in_right_after(events, k - 1)
    } else {
        in_right_after(events, k - 1)
    }
}

/// Whether the ray is inside the combination after the first `k` events.
pub open spec fn inside_after(events: Seq<bool>, op: CSGOperation, k: int) -> bool {
    inside_csg(in_left_after(events, k), in_right_after(events, k), op)
}

/// The crossings among the first `k` events: every event that takes the ray into the
/// combination (its normal flipped when it is a hit of the right operand) or out of it
/// (its normal flipped when it is a hit of the left operand), in event order.
pub open spec fn csg_crossings_upto(events: Seq<bool>, op: CSGOperation, k: int) -> Seq<CsgCrossing>
    decreases k,
{
    if k <= 0 {
        Seq::empty()
    } else {
        let prev = csg_crossings_upto(events, op, k - 1);
        let before = inside_after(events, op, k - 1);
        let after = inside_after(events, op, k);
        if !before && after {
            prev.push(CsgCrossing { event: (k - 1) as usize, flip_normal: !events[k - 1] })
        } else if before && !after {
            prev.push(CsgCrossing { event: (k - 1) as usize, flip_normal: events[k - 1] })
        } else {
            prev
        }
    }
}

/// Merges the surface hits of the two operands of a CSG node, given in order along the
/// ray (`events[i]` true for a hit of the left operand), into the crossings of the
/// combined surface.
pub fn csg_crossings(events: &Vec<bool>, op: &CSGOperation) -> (crossings: Vec<CsgCrossing>)
    ensures
        crossings@ == csg_crossings_upto(events@, *op, events@.len() as int),
{
    let mut in_left = false;
    let mut in_right = false;
    let mut result: Vec<CsgCrossing> = Vec::new();
    let n = events.len();
    let mut i: usize = 0;
    while i < n
        invariant
            n == events@.len(),
            0 <= i <= n,
            in_left == in_left_after(events@, i as int),
            in_right == in_right_after(events@, i as int),
            result@ == csg_crossings_upto(events@, *op, i as int),
        decreases n - i,
    {
        let is_left = events[i];
        let prev_inside = is_inside_csg(in_left, in_right, op);

        if is_left {
            in_left = !in_left;
        } else {
            in_right = !in_right;
        }

        let now_inside = is_inside_csg(in_left, in_right, op);

        if !prev_inside && now_inside {
            if is_left {
                result.push(CsgCrossing { event: i, flip_normal: false });
            } else {
                result.push(CsgCrossing { event: i, flip_normal: true });
            }
        } else if prev_inside && !now_inside {
            if is_left {
                result.push(CsgCrossing { event: i, flip_normal: true });
            } else {
                result.push(CsgCrossing { event: i, flip_normal: false });
            }
        }
        i = i + 1;
    }
    result
}

/// Along a ray the crossings of a CSG combination alternate: the first enters the
/// combination, the next leaves it, and so on; the ray is inside after `k` events exactly
/// when an odd number of crossings happened among them.
pub proof fn csg_crossings_alternate(events: Seq<bool>, op: CSGOperation, k: int)
    requires
        0 <= k <= events.len(),
        events.len() <= usize::MAX,
    ensures
        inside_after(events, op, k) == (csg_crossings_upto(events, op, k).len() % 2 == 1),
        forall|j: int|
            0 <= j < csg_crossings_upto(events, op, k).len() ==> inside_after(
                events,
                op,
                #[trigger] csg_crossings_upto(events, op, k)[j].event + 1,
            ) == (j % 2 == 0),
        forall|j: int|
            0 <= j < csg_crossings_upto(events, op, k).len() ==> #[trigger] csg_crossings_upto(
                events,
                op,
                k,
            )[j].event < k,
    decreases k,
{
    if k > 0 {
        csg_crossings_alternate(events, op, k - 1);
        let prev = csg_crossings_upto(events, op, k - 1);
        let cur = csg_crossings_upto(events, op, k);
        assert forall|j: int| 0 <= j < cur.len() implies inside_after(
            events,
            op,
            #[trigger] cur[j].event + 1,
        ) == (j % 2 == 0) && cur[j].event < k by {
            if j < prev.len() {
                assert(cur[j] == prev[j]);
            } else {
                assert(cur[j].event == k - 1);
            }
        }
    }
}

/// The crossings of a CSG combination are exactly the events at which the ray enters or
/// leaves it, in event order, and the normal flip of each depends only on its direction
/// and on which operand was hit: entering through a hit of the right operand flips the
/// normal (the ray is leaving that operand, so its outward normal points inward) and
/// entering through the left operand does not; leaving through a hit of the left operand
/// flips it and leaving through the right operand does not.
pub proof fn csg_crossing_normals_follow_direction(events: Seq<bool>, op: CSGOperation, k: int)
    requires
        0 <= k <= events.len(),
        events.len() <= usize::MAX,
    ensures
        forall|j: int|
            0 <= j < csg_crossings_upto(events, op, k).len() ==> {
                let c = #[trigger] csg_crossings_upto(events, op, k)[j];
                let e = c.event as int;
                &&& 0 <= e < k
                &&& inside_after(events, op, e) != inside_after(events, op, e + 1)
                &&& c.flip_normal == if inside_after(events, op, e + 1) {
                    !events[e]
                } else {
                    events[e]
                }
            },
        forall|i: int, j: int|
            0 <= i < j < csg_crossings_upto(events, op, k).len() ==> (#[trigger] csg_crossings_upto(
                events,
                op,
                k,
            )[i]).event < (#[trigger] csg_crossings_upto(events, op, k)[j]).event,
        forall|e: int|
            0 <= e < k && #[trigger] inside_after(events, op, e) != inside_after(events, op, e + 1) ==> exists|
                j: int,
            |
                0 <= j < csg_crossings_upto(events, op, k).len() && (#[trigger] csg_crossings_upto(
                    events,
                    op,
                    k,
                )[j]).event == e,
    decreases k,
{
    if k > 0 {
        csg_crossing_normals_follow_direction(events, op, k - 1);
        let prev = csg_crossings_upto(events, op, k - 1);
        let cur = csg_crossings_upto(events, op, k);
        assert forall|j: int| 0 <= j < cur.len() implies {
            let c = #[trigger] cur[j];
            let e = c.event as int;
            &&& 0 <= e < k
            &&& inside_after(events, op, e) != inside_after(events, op, e + 1)
            &&& c.flip_normal == if inside_after(events, op, e + 1) {
                !events[e]
            } else {
                events[e]
            }
        } by {
            if j < prev.len() {
                assert(cur[j] == prev[j]);
            }
        }
        assert forall|i: int, j: int| 0 <= i < j < cur.len() implies (#[trigger] cur[i]).event
            < (#[trigger] cur[j]).event by {
            assert(cur[i] == prev[i]);
            if j < prev.len() {
                assert(cur[j] == prev[j]);
            }
        }
        assert forall|e: int| 0 <= e < k && #[trigger] inside_after(events, op, e) != inside_after(events, op, e + 1)
            implies exists|j: int| 0 <= j < cur.len() && (#[trigger] cur[j]).event == e by {
            if e < k - 1 {
                let j = choose|j: int| 0 <= j < prev.len() && (#[trigger] prev[j]).event == e;
                assert(cur[j] == prev[j]);
            } else {
                assert(cur[cur.len() - 1].event == e);
            }
        }
    }
}

} // verus!
