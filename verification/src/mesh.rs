use vstd::prelude::*;

verus! {

/// A triangle as three vertex numbers.
pub type TriangleIndices = (usize, usize, usize);

/// The vertex numbers of a triangle, as integers.
pub open spec fn triangle_ints(t: TriangleIndices) -> (int, int, int) {
    (t.0 as int, t.1 as int, t.2 as int)
}

/// Triangles joining the north pole (vertex 0) to the first ring of `n` vertices, which
/// starts at vertex 2.
pub open spec fn north_cap(n: int) -> Seq<(int, int, int)> {
    Seq::new(n as nat, |i: int| (0int, 2 + i, 2 + (i + 1) % n))
}

/// The two triangles of each quad between ring `lat` and ring `lat + 1` (each ring `n`
/// vertices, ring `k` starting at vertex `2 + k * n`): for the quad from column `i` to the
/// next column, first (`a`, `b`, `c`) and then (`a`, `c`, `d`), where `a`, `b` are on ring
/// `lat` and `d`, `c` below them on the next ring.
pub open spec fn ring_band(n: int, lat: int) -> Seq<(int, int, int)> {
    Seq::new(
        (2 * n) as nat,
        |r: int|
            {
                let i = r / 2;
                let curr = 2 + lat * n;
                let next = curr + n;
                if r % 2 == 0 {
                    (curr + i, curr + (i + 1) % n, next + (i + 1) % n)
                } else {
                    (curr + i, next + (i + 1) % n, next + i)
                }
            },
    )
}

/// The bands between the first `k + 1` rings.
pub open spec fn bands_upto(n: int, k: int) -> Seq<(int, int, int)>
    decreases k,
{
    if k <= 0 {
        Seq::empty()
    } else {
        bands_upto(n, k - 1) + ring_band(n, k - 1)
    }
}

/// Triangles joining the last of `lats` rings to the south pole (vertex 1).
pub open spec fn south_cap(n: int, lats: int) -> Seq<(int, int, int)> {
    let last = 2 + (lats - 1) * n;
    Seq::new(n as nat, |i: int| (1int, last + (i + 1) % n, last + i))
}

/// Triangles of a UV sphere with `divs` columns and `divs / 2` rings between the poles:
/// the north cap, the bands between consecutive rings from north to south, the south cap.
pub open spec fn sphere_triangles_spec(divs: int) -> Seq<(int, int, int)> {
    north_cap(divs) + bands_upto(divs, divs / 2 - 1) + south_cap(divs, divs / 2)
}

/// Number of vertices of the sphere: the two poles and `divs / 2` rings of `divs`.
pub open spec fn sphere_vertex_count(divs: int) -> int {
    2 + (divs / 2) * divs
}

/// The bands between `k + 1` rings hold two triangles per column per band.
proof fn lemma_bands_upto_len(n: int, k: int)
    requires
        n >= 0,
        k >= 0,
    ensures
        bands_upto(n, k).len() == 2 * n * k,
    decreases k,
{
    if k > 0 {
        lemma_bands_upto_len(n, k - 1);
        assert(2 * n * (k - 1) + 2 * n == 2 * n * k) by (nonlinear_arith);
    } else {
        assert(2 * n * k == 0) by (nonlinear_arith)
            requires
                k == 0,
        ;
    }
}

/// Every vertex number of the bands lies in the rings they join.
proof fn lemma_bands_in_range(n: int, k: int, lats: int)
    requires
        n >= 1,
        0 <= k,
        k + 1 <= lats,
    ensures
        forall|j: int|
            0 <= j < bands_upto(n, k).len() ==> {
                let t = #[trigger] bands_upto(n, k)[j];
                &&& 2 <= t.0 < 2 + lats * n
                &&& 2 <= t.1 < 2 + lats * n
                &&& 2 <= t.2 < 2 + lats * n
            },
    decreases k,
{
    if k > 0 {
        lemma_bands_in_range(n, k - 1, lats);
        let prev = bands_upto(n, k - 1);
        let band = ring_band(n, k - 1);
        assert((k - 1) * n >= 0) by (nonlinear_arith)
            requires
                k >= 1,
                n >= 1,
        ;
        assert((k - 1) * n + 2 * n <= lats * n) by (nonlinear_arith)
            requires
                k + 1 <= lats,
                n >= 1,
        ;
        assert forall|j: int| 0 <= j < bands_upto(n, k).len() implies {
            let t = #[trigger] bands_upto(n, k)[j];
            &&& 2 <= t.0 < 2 + lats * n
            &&& 2 <= t.1 < 2 + lats * n
            &&& 2 <= t.2 < 2 + lats * n
        } by {
            if j >= prev.len() {
                let r = j - prev.len();
                assert(bands_upto(n, k)[j] == band[r]);
                assert(0 <= r / 2 < n);
            } else {
                assert(bands_upto(n, k)[j] == prev[j]);
            }
        }
    }
}

/// A sphere of `divs` columns has `2 * divs * (divs / 2)` triangles, and every vertex
/// number in them names one of its `2 + (divs / 2) * divs` vertices.
pub proof fn sphere_triangles_name_its_vertices(divs: int)
    requires
        divs >= 3,
    ensures
        sphere_triangles_spec(divs).len() == 2 * divs * (divs / 2),
        forall|k: int|
            0 <= k < sphere_triangles_spec(divs).len() ==> {
                let t = #[trigger] sphere_triangles_spec(divs)[k];
                &&& 0 <= t.0 < sphere_vertex_count(divs)
                &&& 0 <= t.1 < sphere_vertex_count(divs)
                &&& 0 <= t.2 < sphere_vertex_count(divs)
            },
{
    let n = divs;
    let lats = divs / 2;
    lemma_bands_upto_len(n, lats - 1);
    lemma_bands_in_range(n, lats - 1, lats);
    let north = north_cap(n);
    let bands = bands_upto(n, lats - 1);
    let south = south_cap(n, lats);
    assert(n + 2 * n * (lats - 1) + n == 2 * n * lats) by (nonlinear_arith);
    assert(n <= lats * n) by (nonlinear_arith)
        requires
            lats >= 1,
            n >= 1,
    ;
    assert((lats - 1) * n >= 0) by (nonlinear_arith)
        requires
            lats >= 1,
            n >= 1,
    ;
    assert((lats - 1) * n + n == lats * n) by (nonlinear_arith);
    assert(lats * n == (divs / 2) * divs);
    assert forall|k: int| 0 <= k < sphere_triangles_spec(divs).len() implies {
        let t = #[trigger] sphere_triangles_spec(divs)[k];
        &&& 0 <= t.0 < sphere_vertex_count(divs)
        &&& 0 <= t.1 < sphere_vertex_count(divs)
        &&& 0 <= t.2 < sphere_vertex_count(divs)
    } by {
        if k < north.len() {
            assert(sphere_triangles_spec(divs)[k] == north[k]);
        } else if k < north.len() + bands.len() {
            assert(sphere_triangles_spec(divs)[k] == bands[k - north.len()]);
        } else {
            assert(sphere_triangles_spec(divs)[k] == south[k - north.len() - bands.len()]);
        }
    }
}

/// Triangles of a UV sphere with `divs` columns (at least 3) and `divs / 2` rings: vertex
/// 0 is the north pole, vertex 1 the south pole, and ring `k` holds vertices
/// `2 + k * divs` to `2 + k * divs + divs - 1`; the triangles come in the order, and with
/// the vertex order, that [`sphere_triangles_spec`] gives.
pub fn sphere_triangles(divs: i32) -> (triangles: Vec<TriangleIndices>)
    requires
        divs >= 3,
        sphere_vertex_count(divs as int) <= usize::MAX,
    ensures
        triangles@.map_values(|t: TriangleIndices| triangle_ints(t)) == sphere_triangles_spec(
            divs as int,
        ),
{
    let n = divs as usize;
    let lats = (divs / 2) as usize;
    let ghost ni = n as int;
    assert(lats * n <= usize::MAX - 2);
    let mut triangles: Vec<TriangleIndices> = Vec::new();

    let mut i: usize = 0;
    while i < n
        invariant
            0 <= i <= n,
            n >= 3,
            lats >= 1,
            lats * n <= usize::MAX - 2,
            triangles@.map_values(|t: TriangleIndices| triangle_ints(t)) =~= north_cap(
                n as int,
            ).take(i as int),
        decreases n - i,
    {
        assert(n <= lats * n) by (nonlinear_arith)
            requires
                lats >= 1,
        ;
        let ghost before = triangles@;
        triangles.push((0, 2 + i, 2 + (i + 1) % n));
        assert(triangles@.map_values(|t: TriangleIndices| triangle_ints(t)) =~= before.map_values(
            |t: TriangleIndices| triangle_ints(t),
        ).push(north_cap(n as int)[i as int]));
        assert(north_cap(n as int).take(i + 1) =~= north_cap(n as int).take(i as int).push(
            north_cap(n as int)[i as int],
        ));
        i = i + 1;
    }
    assert(north_cap(n as int).take(n as int) =~= north_cap(n as int));

    let mut lat: usize = 0;
    while lat < lats - 1
        invariant
            0 <= lat <= lats - 1,
            n >= 3,
            lats >= 1,
            lats * n <= usize::MAX - 2,
            triangles@.map_values(|t: TriangleIndices| triangle_ints(t)) =~= north_cap(n as int)
                + bands_upto(n as int, lat as int),
        decreases lats - 1 - lat,
    {
        assert((lat + 2) * n <= lats * n) by (nonlinear_arith)
            requires
                lat + 2 <= lats,
        ;
        assert((lat + 2) * n == lat * n + 2 * n) by (nonlinear_arith);
        let curr = 2 + lat * n;
        let next = curr + n;
        let ghost band = ring_band(n as int, lat as int);
        let ghost base = triangles@.map_values(|t: TriangleIndices| triangle_ints(t));
        let mut i: usize = 0;
        while i < n
            invariant
                0 <= i <= n,
                n >= 3,
                curr == 2 + lat * n,
                next == curr + n,
                next + n <= usize::MAX,
                band == ring_band(n as int, lat as int),
                triangles@.map_values(|t: TriangleIndices| triangle_ints(t)) =~= base + band.take(
                    2 * i,
                ),
            decreases n - i,
        {
            let next_i = (i + 1) % n;
            let a = curr + i;
            let b = curr + next_i;
            let c = next + next_i;
            let d = next + i;
            let ghost before = triangles@;
            assert((2 * i) / 2 == i as int && (2 * i) % 2 == 0);
            assert((2 * i + 1) / 2 == i as int && (2 * i + 1) % 2 == 1);
            triangles.push((a, b, c));
            triangles.push((a, c, d));
            assert(triangles@.map_values(|t: TriangleIndices| triangle_ints(t)) =~= before.map_values(
                |t: TriangleIndices| triangle_ints(t),
            ).push(band[2 * i]).push(band[2 * i + 1]));
            assert(band.take(2 * i + 2) =~= band.take(2 * i).push(band[2 * i]).push(
                band[2 * i + 1],
            ));
            i = i + 1;
        }
        assert(band.take(2 * n) =~= band);
        assert(bands_upto(n as int, lat + 1) == bands_upto(n as int, lat as int) + band);
        lat = lat + 1;
    }

    assert((lats - 1) * n + n == lats * n) by (nonlinear_arith);
    let last_ring = 2 + (lats - 1) * n;
    let ghost south = south_cap(n as int, lats as int);
    let ghost base = triangles@.map_values(|t: TriangleIndices| triangle_ints(t));
    let mut i: usize = 0;
    while i < n
        invariant
            0 <= i <= n,
            n >= 3,
            last_ring == 2 + (lats - 1) * n,
            last_ring + n <= usize::MAX,
            south == south_cap(n as int, lats as int),
            triangles@.map_values(|t: TriangleIndices| triangle_ints(t)) =~= base + south.take(
                i as int,
            ),
        decreases n - i,
    {
        let next_i = (i + 1) % n;
        let ghost before = triangles@;
        triangles.push((1, last_ring + next_i, last_ring + i));
        assert(triangles@.map_values(|t: TriangleIndices| triangle_ints(t)) =~= before.map_values(
            |t: TriangleIndices| triangle_ints(t),
        ).push(south[i as int]));
        assert(south.take(i + 1) =~= south.take(i as int).push(south[i as int]));
        i = i + 1;
    }
    assert(south.take(n as int) =~= south);
    triangles
}

} // verus!
