use vstd::prelude::*;
use crate::text::chars_of;
use std::collections::HashMap;

verus! {

/// One corner of an OBJ face: zero-based indices of its position, texture coordinate and
/// normal; `-1` where the face gives none.
#[derive(Copy, Clone, Debug, PartialEq, Eq, Hash, Structural)]
pub struct OBJIndex {
    pub vertex_index: i32,
    pub tex_coord_index: i32,
    pub normal_index: i32,
}

impl OBJIndex {
    pub fn new(vertex_index: i32, tex_coord_index: i32, normal_index: i32) -> (index: Self)
        ensures
            index.vertex_index == vertex_index,
            index.tex_coord_index == tex_coord_index,
            index.normal_index == normal_index,
    {
        Self { vertex_index, tex_coord_index, normal_index }
    }
}

// ---------------------------------------------------------------------------------
// Decimal integers, as `str::parse::<i32>` reads them.
// ---------------------------------------------------------------------------------

pub open spec fn is_digit(c: char) -> bool {
    '0' <= c <= '9'
}

pub open spec fn digit_value(c: char) -> int {
    c as int - '0' as int
}

pub open spec fn all_digits(s: Seq<char>) -> bool {
    forall|i: int| 0 <= i < s.len() ==> is_digit(#[trigger] s[i])
}

/// Value of a string of decimal digits.
pub open spec fn decimal_value(s: Seq<char>) -> int
    decreases s.len(),
{
    if s.len() == 0 {
        0
    } else {
        10 * decimal_value(s.drop_last()) + digit_value(s.last())
    }
}

/// The `i32` that `s` denotes: an optional `+` or `-` followed by at least one decimal
/// digit, and nothing else, whose value fits an `i32`; `None` for anything else.
pub open spec fn parse_i32_spec(s: Seq<char>) -> Option<i32> {
    if s.len() == 0 {
        None
    } else {
        let digits = if s[0] == '-' || s[0] == '+' {
            s.drop_first()
        } else {
            s
        };
        if digits.len() == 0 || !all_digits(digits) {
            None
        } else {
            let v = if s[0] == '-' {
                -decimal_value(digits)
            } else {
                decimal_value(digits)
            };
            if i32::MIN <= v <= i32::MAX {
                Some(v as i32)
            } else {
                None
            }
        }
    }
}

/// The number `s` denotes, or 0 when it denotes none.
pub open spec fn number_or_zero(s: Seq<char>) -> int {
    match parse_i32_spec(s) {
        Some(v) => v as int,
        None => 0,
    }
}

proof fn lemma_decimal_value_nonneg(s: Seq<char>)
    requires
        all_digits(s),
    ensures
        decimal_value(s) >= 0,
    decreases s.len(),
{
    if s.len() > 0 {
        lemma_decimal_value_nonneg(s.drop_last());
    }
}

/// A longer digit string is worth at least as much as its prefix.
proof fn lemma_decimal_value_prefix(s: Seq<char>, j: int)
    requires
        all_digits(s),
        0 <= j <= s.len(),
    ensures
        decimal_value(s.take(j)) <= decimal_value(s),
    decreases s.len(),
{
    if j < s.len() {
        lemma_decimal_value_prefix(s.drop_last(), j);
        assert(s.drop_last().take(j) =~= s.take(j));
        lemma_decimal_value_nonneg(s.drop_last());
    } else {
        assert(s.take(j) =~= s);
    }
}

/// The number denoted by `chars[lo..hi]`, if any.
pub fn parse_i32(chars: &Vec<char>, lo: usize, hi: usize) -> (value: Option<i32>)
    requires
        lo <= hi <= chars@.len(),
    ensures
        value == parse_i32_spec(chars@.subrange(lo as int, hi as int)),
{
    let ghost s = chars@.subrange(lo as int, hi as int);
    if lo == hi {
        return None;
    }
    let negative = chars[lo] == '-';
    let start = if chars[lo] == '-' || chars[lo] == '+' { lo + 1 } else { lo };
    let ghost digits = chars@.subrange(start as int, hi as int);
    assert(digits =~= if s[0] == '-' || s[0] == '+' { s.drop_first() } else { s });
    if start == hi {
        return None;
    }
    let mut acc: i64 = 0;
    let mut i = start;
    while i < hi
        invariant
            start <= i <= hi <= chars@.len(),
            s == chars@.subrange(lo as int, hi as int),
            s.len() > 0,
            digits == chars@.subrange(start as int, hi as int),
            digits == (if s[0] == '-' || s[0] == '+' { s.drop_first() } else { s }),
            digits.len() > 0,
            all_digits(digits.take(i - start)),
            acc == decimal_value(digits.take(i - start)),
            0 <= acc <= 0x8000_0000,
        decreases hi - i,
    {
        let c = chars[i];
        if !('0' <= c && c <= '9') {
            assert(!all_digits(digits)) by {
                assert(digits[i - start] == c);
            }
            return None;
        }
        let ghost prefix = digits.take(i - start);
        let ghost next = digits.take(i - start + 1);
        assert(next.drop_last() =~= prefix);
        assert(next.last() == c);
        acc = acc * 10 + ((c as u32) - ('0' as u32)) as i64;
        assert(all_digits(next)) by {
            assert forall|k: int| 0 <= k < next.len() implies is_digit(#[trigger] next[k]) by {
                if k < prefix.len() {
                    assert(next[k] == prefix[k]);
                }
            }
        }
        i = i + 1;
        if acc > 0x8000_0000 {
            proof {
                if all_digits(digits) {
                    lemma_decimal_value_prefix(digits, i - start);
                }
            }
            return None;
        }
    }
    assert(digits.take(hi - start) =~= digits);
    let value: i64 = if negative { -acc } else { acc };
    if value < -0x8000_0000 || value > 0x7fff_ffff {
        None
    } else {
        Some(value as i32)
    }
}

// ---------------------------------------------------------------------------------
// Splitting on a separator, as `str::split` with a character does.
// ---------------------------------------------------------------------------------

/// The pieces of `s` between occurrences of `sep`, in order; a string without `sep`
/// is one piece, and `k` separators always give `k + 1` pieces (possibly empty).
pub open spec fn split_on(s: Seq<char>, sep: char) -> Seq<Seq<char>>
    decreases s.len(),
{
    if s.len() == 0 {
        seq![Seq::empty()]
    } else {
        let prev = split_on(s.drop_last(), sep);
        if s.last() == sep {
            prev.push(Seq::empty())
        } else {
            prev.update(prev.len() - 1, prev.last().push(s.last()))
        }
    }
}

/// Splitting always gives at least one piece.
pub proof fn lemma_split_on_nonempty(s: Seq<char>, sep: char)
    ensures
        split_on(s, sep).len() >= 1,
    decreases s.len(),
{
    if s.len() > 0 {
        lemma_split_on_nonempty(s.drop_last(), sep);
    }
}

/// Bounds `[a, b)` of the pieces of `chars[lo..hi]` between occurrences of `sep`.
pub fn split_ranges(chars: &Vec<char>, lo: usize, hi: usize, sep: char) -> (ranges: Vec<(usize, usize)>)
    requires
        lo <= hi <= chars@.len(),
    ensures
        ranges@.len() == split_on(chars@.subrange(lo as int, hi as int), sep).len(),
        forall|k: int|
            0 <= k < ranges@.len() ==> {
                &&& lo <= (#[trigger] ranges@[k]).0 <= ranges@[k].1 <= hi
                &&& chars@.subrange(ranges@[k].0 as int, ranges@[k].1 as int) == split_on(
                    chars@.subrange(lo as int, hi as int),
                    sep,
                )[k]
            },
{
    let mut ranges: Vec<(usize, usize)> = Vec::new();
    let mut piece_start: usize = lo;
    let mut i: usize = lo;
    assert(chars@.subrange(lo as int, lo as int) =~= Seq::<char>::empty());
    while i < hi
        invariant
            lo <= piece_start <= i <= hi <= chars@.len(),
            ranges@.len() + 1 == split_on(chars@.subrange(lo as int, i as int), sep).len(),
            forall|k: int|
                0 <= k < ranges@.len() ==> {
                    &&& lo <= (#[trigger] ranges@[k]).0 <= ranges@[k].1 <= i
                    &&& chars@.subrange(ranges@[k].0 as int, ranges@[k].1 as int) == split_on(
                        chars@.subrange(lo as int, i as int),
                        sep,
                    )[k]
                },
            chars@.subrange(piece_start as int, i as int) == split_on(
                chars@.subrange(lo as int, i as int),
                sep,
            ).last(),
        decreases hi - i,
    {
        let ghost prefix = chars@.subrange(lo as int, i as int);
        let ghost next = chars@.subrange(lo as int, i + 1);
        proof {
            assert(next.drop_last() =~= prefix);
            assert(next.last() == chars@[i as int]);
            lemma_split_on_nonempty(prefix, sep);
        }
        if chars[i] == sep {
            ranges.push((piece_start, i));
            piece_start = i + 1;
            assert(chars@.subrange(piece_start as int, i + 1) =~= Seq::<char>::empty());
        } else {
            assert(chars@.subrange(piece_start as int, i + 1) =~= chars@.subrange(
                piece_start as int,
                i as int,
            ).push(chars@[i as int]));
        }
        i = i + 1;
    }
    ranges.push((piece_start, hi));
    ranges
}

// ---------------------------------------------------------------------------------
// Face corners and faces.
// ---------------------------------------------------------------------------------

/// The `/`-separated parts of a face corner token such as `3/1/2`.
pub open spec fn corner_parts(token: Seq<char>) -> Seq<Seq<char>> {
    split_on(token, '/')
}

/// Whether the token gives a texture coordinate (a non-empty second part).
pub open spec fn mentions_tex_coord(token: Seq<char>) -> bool {
    corner_parts(token).len() > 1 && corner_parts(token)[1].len() > 0
}

/// Whether the token gives a normal (a non-empty third part).
pub open spec fn mentions_normal(token: Seq<char>) -> bool {
    corner_parts(token).len() > 2 && corner_parts(token)[2].len() > 0
}

/// Whether converting the one-based numbers of the token to zero-based indices stays
/// inside `i32` (a part reading `-2147483648` cannot be lowered by one).
pub open spec fn corner_convertible(token: Seq<char>) -> bool {
    &&& number_or_zero(corner_parts(token)[0]) != i32::MIN
    &&& mentions_tex_coord(token) ==> number_or_zero(corner_parts(token)[1]) != i32::MIN
    &&& mentions_normal(token) ==> number_or_zero(corner_parts(token)[2]) != i32::MIN
}

/// The face corner a token denotes: each one-based number lowered by one (a part that
/// is not a number counts as 0); texture coordinate and normal are -1 when not given.
pub open spec fn corner_spec(token: Seq<char>) -> OBJIndex {
    let parts = corner_parts(token);
    OBJIndex {
        vertex_index: (number_or_zero(parts[0]) - 1) as i32,
        tex_coord_index: if mentions_tex_coord(token) {
            (number_or_zero(parts[1]) - 1) as i32
        } else {
            -1i32
        },
        normal_index: if mentions_normal(token) {
            (number_or_zero(parts[2]) - 1) as i32
        } else {
            -1i32
        },
    }
}

/// The number in `chars[lo..hi]`, or 0 when there is none.
fn parse_number_or_zero(chars: &Vec<char>, lo: usize, hi: usize) -> (value: i32)
    requires
        lo <= hi <= chars@.len(),
    ensures
        value == number_or_zero(chars@.subrange(lo as int, hi as int)),
{
    match parse_i32(chars, lo, hi) {
        Some(v) => v,
        None => 0,
    }
}

/// Reads a face corner `v`, `v/t`, `v//n` or `v/t/n` of an OBJ face line, with one-based
/// numbers, into zero-based indices. Sets `has_tex_coords` when the corner gives a
/// texture coordinate and `has_normals` when it gives a normal; leaves them as they
/// are otherwise.
pub fn parse_obj_index(token: &str, has_tex_coords: &mut bool, has_normals: &mut bool) -> (index:
    OBJIndex)
    requires
        corner_convertible(token@),
    ensures
        index == corner_spec(token@),
        *final(has_tex_coords) == (*old(has_tex_coords) || mentions_tex_coord(token@)),
        *final(has_normals) == (*old(has_normals) || mentions_normal(token@)),
{
    let chars = chars_of(token);
    let parts = split_ranges(&chars, 0, chars.len(), '/');
    proof {
        assert(chars@.subrange(0, chars@.len() as int) =~= chars@);
        lemma_split_on_nonempty(chars@, '/');
    }

    let vertex_index = parse_number_or_zero(&chars, parts[0].0, parts[0].1) - 1;

    let mut tex_coord_index: i32 = -1;
    let mut normal_index: i32 = -1;

    if parts.len() > 1 {
        if parts[1].0 != parts[1].1 {
            *has_tex_coords = true;
            tex_coord_index = parse_number_or_zero(&chars, parts[1].0, parts[1].1) - 1;
        }

        if parts.len() > 2 && parts[2].0 != parts[2].1 {
            *has_normals = true;
            normal_index = parse_number_or_zero(&chars, parts[2].0, parts[2].1) - 1;
        }
    }

    OBJIndex::new(vertex_index, tex_coord_index, normal_index)
}

/// Reads the corners of a face line already split into tokens, `tokens[0]` being the
/// `f` keyword, updating the texture-coordinate and normal flags as
/// [`parse_obj_index`] does for each corner.
pub fn parse_face(tokens: &Vec<String>, has_tex_coords: &mut bool, has_normals: &mut bool) -> (corners:
    Vec<OBJIndex>)
    requires
        tokens@.len() >= 1,
        forall|k: int| 1 <= k < tokens@.len() ==> corner_convertible(#[trigger] tokens@[k]@),
    ensures
        corners@.len() == tokens@.len() - 1,
        forall|k: int| 0 <= k < corners@.len() ==> #[trigger] corners@[k] == corner_spec(tokens@[k + 1]@),
        *final(has_tex_coords) == (*old(has_tex_coords) || exists|k: int|
            1 <= k < tokens@.len() && mentions_tex_coord(#[trigger] tokens@[k]@)),
        *final(has_normals) == (*old(has_normals) || exists|k: int|
            1 <= k < tokens@.len() && mentions_normal(#[trigger] tokens@[k]@)),
{
    let mut corners: Vec<OBJIndex> = Vec::new();
    let n = tokens.len();
    let mut i: usize = 1;
    while i < n
        invariant
            n == tokens@.len(),
            1 <= i <= n,
            forall|k: int| 1 <= k < tokens@.len() ==> corner_convertible(#[trigger] tokens@[k]@),
            corners@.len() == i - 1,
            forall|k: int| 0 <= k < corners@.len() ==> #[trigger] corners@[k] == corner_spec(tokens@[k + 1]@),
            *has_tex_coords == (*old(has_tex_coords) || exists|k: int|
                1 <= k < i && mentions_tex_coord(#[trigger] tokens@[k]@)),
            *has_normals == (*old(has_normals) || exists|k: int|
                1 <= k < i && mentions_normal(#[trigger] tokens@[k]@)),
        decreases n - i,
    {
        let corner = parse_obj_index(tokens[i].as_str(), has_tex_coords, has_normals);
        corners.push(corner);
        i = i + 1;
    }
    corners
}

/// The triangles of a fan over a convex polygon: corner 0 with corners `t + 1` and
/// `t + 2`, for each `t` from 0 to `n - 3`; no triangle for fewer than three corners.
pub open spec fn fan_triangles(face: Seq<OBJIndex>) -> Seq<OBJIndex> {
    Seq::new(
        if face.len() >= 2 {
            (3 * (face.len() - 2)) as nat
        } else {
            0nat
        },
        |i: int|
            if i % 3 == 0 {
                face[0]
            } else if i % 3 == 1 {
                face[i / 3 + 1]
            } else {
                face[i / 3 + 2]
            },
    )
}

/// Appends the fan triangulation of a polygonal face (every triangle sharing its first
/// corner) to `indices`, three corners a triangle.
pub fn triangulate_face(indices: &mut Vec<OBJIndex>, face_indices: &Vec<OBJIndex>)
    requires
        face_indices@.len() >= 1,
    ensures
        final(indices)@ == old(indices)@ + fan_triangles(face_indices@),
{
    let ghost base = indices@;
    let ghost fan = fan_triangles(face_indices@);
    let last = face_indices.len() - 1;
    let mut i: usize = 1;
    while i < last
        invariant
            last == face_indices@.len() - 1,
            1 <= i,
            last >= 1 ==> i <= last,
            last == 0 ==> i == 1,
            fan == fan_triangles(face_indices@),
            indices@ =~= base + fan.take(3 * (i - 1)),
        decreases last - i,
    {
        indices.push(face_indices[0]);
        indices.push(face_indices[i]);
        indices.push(face_indices[i + 1]);
        proof {
            let t = i - 1;
            assert((3 * t) % 3 == 0 && (3 * t) / 3 == t);
            assert((3 * t + 1) % 3 == 1 && (3 * t + 1) / 3 == t);
            assert((3 * t + 2) % 3 == 2 && (3 * t + 2) / 3 == t);
            assert(fan.take(3 * i) =~= fan.take(3 * t).push(face_indices@[0]).push(
                face_indices@[i as int],
            ).push(face_indices@[i + 1]));
        }
        i = i + 1;
    }
    proof {
        if last >= 1 {
            assert(i == last);
            assert(fan.len() == 3 * (last - 1));
            assert(fan.take(3 * (i - 1)) =~= fan);
        } else {
            assert(fan.len() == 0);
            assert(fan.take(3 * (i - 1)) =~= fan);
        }
        assert(indices@ =~= base + fan);
    }
}

// ---------------------------------------------------------------------------------
// Indexing the corners of a face list.
// ---------------------------------------------------------------------------------

/// The distinct elements of `s`, each once, in the order of their first appearance.
pub open spec fn first_occurrences<T>(s: Seq<T>) -> Seq<T>
    decreases s.len(),
{
    if s.len() == 0 {
        Seq::empty()
    } else {
        let prev = first_occurrences(s.drop_last());
        if prev.contains(s.last()) {
            prev
        } else {
            prev.push(s.last())
        }
    }
}

/// Taking first occurrences keeps exactly the elements of the sequence, each once.
pub proof fn first_occurrences_properties<T>(s: Seq<T>)
    ensures
        first_occurrences(s).no_duplicates(),
        forall|x: T| #[trigger] first_occurrences(s).contains(x) <==> s.contains(x),
    decreases s.len(),
{
    if s.len() > 0 {
        first_occurrences_properties(s.drop_last());
        let prev = first_occurrences(s.drop_last());
        let p = s.drop_last();
        assert forall|x: T| s.contains(x) <==> (p.contains(x) || x == s.last()) by {
            if s.contains(x) {
                let k = choose|k: int| 0 <= k < s.len() && s[k] == x;
                if k < s.len() - 1 {
                    assert(p[k] == x);
                }
            }
            if p.contains(x) {
                let k = choose|k: int| 0 <= k < p.len() && p[k] == x;
                assert(s[k] == x);
            }
            if x == s.last() {
                assert(s[s.len() - 1] == x);
            }
        }
        if prev.contains(s.last()) {
            assert(first_occurrences(s) == prev);
        } else {
            assert(first_occurrences(s) == prev.push(s.last()));
            assert forall|x: T| prev.push(s.last()).contains(x) <==> (prev.contains(x) || x == s.last()) by {
                if prev.push(s.last()).contains(x) {
                    let k = choose|k: int| 0 <= k < prev.len() + 1 && prev.push(s.last())[k] == x;
                    if k < prev.len() {
                        assert(prev[k] == x);
                    }
                }
                if prev.contains(x) {
                    let k = choose|k: int| 0 <= k < prev.len() && prev[k] == x;
                    assert(prev.push(s.last())[k] == x);
                }
                if x == s.last() {
                    assert(prev.push(s.last())[prev.len() as int] == x);
                }
            }
        }
        assert forall|x: T| #[trigger] first_occurrences(s).contains(x) <==> s.contains(x) by {
            assert(prev.contains(x) <==> p.contains(x));
        }
    } else {
        assert forall|x: T| #[trigger] first_occurrences(s).contains(x) <==> s.contains(x) by {
            assert(first_occurrences(s) =~= Seq::<T>::empty());
            if s.contains(x) {
                let k = choose|k: int| 0 <= k < s.len() && s[k] == x;
            }
        }
    }
}

/// Appending an element adds it to the first occurrences unless it was already there.
proof fn lemma_first_occurrences_push<T>(s: Seq<T>, x: T)
    ensures
        first_occurrences(s.push(x)) == if first_occurrences(s).contains(x) {
            first_occurrences(s)
        } else {
            first_occurrences(s).push(x)
        },
{
    assert(s.push(x).drop_last() =~= s);
}

/// Key of a face corner in a hash map: the three indices shifted into `[0, 2^32)` and
/// laid side by side.
pub open spec fn corner_key(c: OBJIndex) -> u128 {
    ((c.vertex_index + 0x8000_0000) * 0x1_0000_0000_0000_0000 + (c.tex_coord_index
        + 0x8000_0000) * 0x1_0000_0000 + (c.normal_index + 0x8000_0000)) as u128
}

/// Distinct corners have distinct keys.
proof fn lemma_corner_key_injective(a: OBJIndex, b: OBJIndex)
    ensures
        corner_key(a) == corner_key(b) ==> a == b,
{
    let a0 = a.vertex_index + 0x8000_0000;
    let a1 = a.tex_coord_index + 0x8000_0000;
    let a2 = a.normal_index + 0x8000_0000;
    let b0 = b.vertex_index + 0x8000_0000;
    let b1 = b.tex_coord_index + 0x8000_0000;
    let b2 = b.normal_index + 0x8000_0000;
    assert(0 <= a0 * 0x1_0000_0000_0000_0000 + a1 * 0x1_0000_0000 + a2 < 0x1_0000_0000_0000_0000_0000_0000);
    assert(0 <= b0 * 0x1_0000_0000_0000_0000 + b1 * 0x1_0000_0000 + b2 < 0x1_0000_0000_0000_0000_0000_0000);
    if corner_key(a) == corner_key(b) {
        assert(a0 == b0 && a1 == b1 && a2 == b2) by (nonlinear_arith)
            requires
                0 <= a0 < 0x1_0000_0000,
                0 <= a1 < 0x1_0000_0000,
                0 <= a2 < 0x1_0000_0000,
                0 <= b0 < 0x1_0000_0000,
                0 <= b1 < 0x1_0000_0000,
                0 <= b2 < 0x1_0000_0000,
                a0 * 0x1_0000_0000_0000_0000 + a1 * 0x1_0000_0000 + a2 == b0 * 0x1_0000_0000_0000_0000
                    + b1 * 0x1_0000_0000 + b2,
        ;
    }
}

/// The hash-map key of a corner.
fn corner_key_of(c: OBJIndex) -> (key: u128)
    ensures
        key == corner_key(c),
{
    let v = (c.vertex_index as i64 + 0x8000_0000) as u128;
    let t = (c.tex_coord_index as i64 + 0x8000_0000) as u128;
    let n = (c.normal_index as i64 + 0x8000_0000) as u128;
    v * 0x1_0000_0000_0000_0000 + t * 0x1_0000_0000 + n
}

/// How the corners of an OBJ face list become the vertices of an indexed model.
pub struct CornerIndexing {
    /// The distinct corners, in order of first appearance: one model vertex each.
    pub model_corners: Vec<OBJIndex>,
    /// For each corner of the list, its model vertex.
    pub model_indices: Vec<usize>,
    /// The distinct position numbers, in order of first appearance: one vertex each of
    /// the auxiliary model on which per-position normals and tangents are computed.
    pub position_vertices: Vec<i32>,
    /// For each corner of the list, its vertex in the auxiliary model.
    pub position_indices: Vec<usize>,
    /// For each model vertex, its vertex in the auxiliary model.
    pub model_to_position: Vec<usize>,
}

/// Position numbers of a corner list.
pub open spec fn corner_positions(corners: Seq<OBJIndex>) -> Seq<i32> {
    corners.map_values(|c: OBJIndex| c.vertex_index)
}

/// Assigns model vertices to the corners of an OBJ face list: every distinct corner
/// (position, texture coordinate and normal together) becomes one model vertex, and
/// every distinct position one vertex of the auxiliary model, both numbered in order of
/// first appearance.
pub fn index_corners(indices: &Vec<OBJIndex>) -> (indexing: CornerIndexing)
    requires
        indices@.len() <= u32::MAX,
    ensures
        indexing.model_corners@ == first_occurrences(indices@),
        indexing.model_indices@.len() == indices@.len(),
        forall|k: int|
            0 <= k < indices@.len() ==> #[trigger] indexing.model_indices@[k]
                < indexing.model_corners@.len() && indexing.model_corners@[indexing.model_indices@[k] as int]
                == indices@[k],
        indexing.position_vertices@ == first_occurrences(corner_positions(indices@)),
        indexing.position_indices@.len() == indices@.len(),
        forall|k: int|
            0 <= k < indices@.len() ==> #[trigger] indexing.position_indices@[k]
                < indexing.position_vertices@.len() && indexing.position_vertices@[indexing.position_indices@[k] as int]
                == indices@[k].vertex_index,
        indexing.model_to_position@.len() == indexing.model_corners@.len(),
        forall|j: int|
            0 <= j < indexing.model_corners@.len() ==> #[trigger] indexing.model_to_position@[j]
                < indexing.position_vertices@.len() && indexing.position_vertices@[indexing.model_to_position@[j] as int]
                == indexing.model_corners@[j].vertex_index,
{
    broadcast use vstd::std_specs::hash::group_hash_axioms;

    let mut model_corners: Vec<OBJIndex> = Vec::new();
    let mut model_indices: Vec<usize> = Vec::new();
    let mut position_vertices: Vec<i32> = Vec::new();
    let mut position_indices: Vec<usize> = Vec::new();
    let mut model_to_position: Vec<usize> = Vec::new();
    let mut corner_map: HashMap<u128, usize> = HashMap::new();
    let mut position_map: HashMap<i32, usize> = HashMap::new();

    let n = indices.len();
    let mut i: usize = 0;
    while i < n
        invariant
            n == indices@.len(),
            n <= u32::MAX,
            0 <= i <= n,
            model_corners@ == first_occurrences(indices@.take(i as int)),
            position_vertices@ == first_occurrences(corner_positions(indices@.take(i as int))),
            model_indices@.len() == i,
            position_indices@.len() == i,
            forall|k: int|
                0 <= k < i ==> #[trigger] model_indices@[k] < model_corners@.len()
                    && model_corners@[model_indices@[k] as int] == indices@[k],
            forall|k: int|
                0 <= k < i ==> #[trigger] position_indices@[k] < position_vertices@.len()
                    && position_vertices@[position_indices@[k] as int] == indices@[k].vertex_index,
            model_to_position@.len() == model_corners@.len(),
            forall|j: int|
                0 <= j < model_corners@.len() ==> #[trigger] model_to_position@[j]
                    < position_vertices@.len() && position_vertices@[model_to_position@[j] as int]
                    == model_corners@[j].vertex_index,
            forall|c: OBJIndex|
                #[trigger] corner_map@.contains_key(corner_key(c)) <==> model_corners@.contains(c),
            forall|j: int|
                0 <= j < model_corners@.len() ==> corner_map@[corner_key(
                    #[trigger] model_corners@[j],
                )] == j,
            forall|v: i32| #[trigger] position_map@.contains_key(v) <==> position_vertices@.contains(v),
            forall|j: int|
                0 <= j < position_vertices@.len() ==> position_map@[#[trigger] position_vertices@[j]] == j,
        decreases n - i,
    {
        let corner = indices[i];
        let ghost prefix = indices@.take(i as int);
        let ghost next = indices@.take(i + 1);
        proof {
            assert(next =~= prefix.push(corner));
            assert(corner_positions(next) =~= corner_positions(prefix).push(corner.vertex_index));
            lemma_first_occurrences_push(prefix, corner);
            lemma_first_occurrences_push(corner_positions(prefix), corner.vertex_index);
            first_occurrences_properties(prefix);
            first_occurrences_properties(corner_positions(prefix));
            assert forall|c: OBJIndex| corner_key(c) == corner_key(corner) implies c == corner by {
                lemma_corner_key_injective(c, corner);
            }
        }

        let ghost pv_before = position_vertices@;
        let ghost mc_before = model_corners@;
        let position_index: usize = match position_map.get(&corner.vertex_index) {
            Some(j) => {
                proof {
                    let k = choose|k: int|
                        0 <= k < pv_before.len() && pv_before[k] == corner.vertex_index;
                    assert(position_map@[pv_before[k]] == k);
                }
                *j
            },
            None => {
                let j = position_vertices.len();
                position_vertices.push(corner.vertex_index);
                position_map.insert(corner.vertex_index, j);
                proof {
                    assert(position_vertices@ == pv_before.push(corner.vertex_index));
                    assert forall|v: i32| #[trigger]
                        position_map@.contains_key(v) <==> position_vertices@.contains(v) by {
                        if v == corner.vertex_index {
                            assert(position_vertices@[j as int] == v);
                        } else {
                            if pv_before.contains(v) {
                                let k = choose|k: int| 0 <= k < pv_before.len() && pv_before[k] == v;
                                assert(position_vertices@[k] == v);
                            }
                            if position_vertices@.contains(v) {
                                let k = choose|k: int|
                                    0 <= k < position_vertices@.len() && position_vertices@[k] == v;
                                assert(pv_before[k] == v);
                            }
                        }
                    }
                    assert forall|k: int| 0 <= k < position_vertices@.len() implies position_map@[#[trigger] position_vertices@[k]] == k by {
                        if k < pv_before.len() {
                            assert(position_vertices@[k] == pv_before[k]);
                            assert(pv_before[k] != corner.vertex_index);
                        }
                    }
                }
                j
            },
        };

        let key = corner_key_of(corner);
        let model_index: usize = match corner_map.get(&key) {
            Some(j) => {
                proof {
                    let k = choose|k: int| 0 <= k < mc_before.len() && mc_before[k] == corner;
                    assert(corner_map@[corner_key(mc_before[k])] == k);
                }
                *j
            },
            None => {
                let j = model_corners.len();
                model_corners.push(corner);
                model_to_position.push(position_index);
                corner_map.insert(key, j);
                proof {
                    assert(model_corners@ == mc_before.push(corner));
                    assert forall|c: OBJIndex| #[trigger]
                        corner_map@.contains_key(corner_key(c)) <==> model_corners@.contains(c) by {
                        if c == corner {
                            assert(model_corners@[j as int] == c);
                        } else {
                            lemma_corner_key_injective(c, corner);
                            if mc_before.contains(c) {
                                let k = choose|k: int| 0 <= k < mc_before.len() && mc_before[k] == c;
                                assert(model_corners@[k] == c);
                            }
                            if model_corners@.contains(c) {
                                let k = choose|k: int|
                                    0 <= k < model_corners@.len() && model_corners@[k] == c;
                                assert(mc_before[k] == c);
                            }
                        }
                    }
                    assert forall|k: int| 0 <= k < model_corners@.len() implies corner_map@[corner_key(#[trigger] model_corners@[k])] == k by {
                        if k < mc_before.len() {
                            assert(model_corners@[k] == mc_before[k]);
                            assert(mc_before[k] != corner);
                            lemma_corner_key_injective(mc_before[k], corner);
                        }
                    }
                }
                j
            },
        };

        model_indices.push(model_index);
        position_indices.push(position_index);
        i = i + 1;
    }
    proof {
        assert(indices@.take(n as int) =~= indices@);
    }
    CornerIndexing { model_corners, model_indices, position_vertices, position_indices, model_to_position }
}

/// The non-empty strings of `tokens`, in order.
pub open spec fn non_empty_strings(tokens: Seq<Seq<char>>) -> Seq<Seq<char>>
    decreases tokens.len(),
{
    if tokens.len() == 0 {
        Seq::empty()
    } else if tokens.last().len() > 0 {
        non_empty_strings(tokens.drop_last()).push(tokens.last())
    } else {
        non_empty_strings(tokens.drop_last())
    }
}

/// Copies of the non-empty strings of `tokens`, in order.
pub fn remove_empty_strings(tokens: &[String]) -> (kept: Vec<String>)
    ensures
        kept@.map_values(|t: String| t@) == non_empty_strings(tokens@.map_values(|t: String| t@)),
{
    let mut kept: Vec<String> = Vec::new();
    let n = tokens.len();
    let mut i: usize = 0;
    while i < n
        invariant
            n == tokens@.len(),
            0 <= i <= n,
            kept@.map_values(|t: String| t@) == non_empty_strings(
                tokens@.map_values(|t: String| t@).take(i as int),
            ),
        decreases n - i,
    {
        let ghost views = tokens@.map_values(|t: String| t@);
        assert(views.take(i + 1).drop_last() =~= views.take(i as int));
        assert(views.take(i + 1).last() == tokens@[i as int]@);
        let ghost before = kept@;
        if !tokens[i].as_str().is_empty() {
            kept.push(tokens[i].clone());
            assert(kept@.map_values(|t: String| t@) =~= before.map_values(|t: String| t@).push(
                tokens@[i as int]@,
            ));
        }
        i = i + 1;
    }
    assert(tokens@.map_values(|t: String| t@).take(n as int) =~= tokens@.map_values(|t: String| t@));
    kept
}

// ---------------------------------------------------------------------------------
// Classifying the lines of an OBJ file.
// ---------------------------------------------------------------------------------

/// What a line of an OBJ file, split into non-empty tokens, contributes to the model.
#[derive(Copy, Clone, Debug, PartialEq, Eq, Structural)]
pub enum ObjLine {
    /// Nothing: a blank line, a comment, an unknown keyword, or a vertex line with too few
    /// numbers.
    Ignored,
    /// A position `v x y z`.
    Position,
    /// A texture coordinate `vt u v`.
    TexCoord,
    /// A normal `vn x y z`.
    Normal,
    /// A face `f c1 c2 ...`.
    Face,
}

/// The kind of an OBJ line from its tokens: the keyword in the first token decides,
/// `v` and `vn` lines need three numbers after it and `vt` lines two.
pub open spec fn obj_line_spec(tokens: Seq<Seq<char>>) -> ObjLine {
    if tokens.len() == 0 {
        ObjLine::Ignored
    } else if tokens[0] == seq!['v'] {
        if tokens.len() >= 4 {
            ObjLine::Position
        } else {
            ObjLine::Ignored
        }
    } else if tokens[0] == seq!['v', 't'] {
        if tokens.len() >= 3 {
            ObjLine::TexCoord
        } else {
            ObjLine::Ignored
        }
    } else if tokens[0] == seq!['v', 'n'] {
        if tokens.len() >= 4 {
            ObjLine::Normal
        } else {
            ObjLine::Ignored
        }
    } else if tokens[0] == seq!['f'] {
        ObjLine::Face
    } else {
        ObjLine::Ignored
    }
}

/// How an OBJ line is classified, stated by keyword: a `v` line with at least three
/// tokens after the keyword is a position, a `vt` line with at least two a texture
/// coordinate, a `vn` line with at least three a normal, any `f` line a face, whatever
/// else follows; shorter vertex lines, empty lines and other first tokens (comments
/// included) declare nothing. Tokens appended to a line never change what an accepted
/// line declares.
pub proof fn obj_lines_classified_by_keyword_and_arity(tokens: Seq<Seq<char>>, extra: Seq<char>)
    ensures
        tokens.len() >= 1 && tokens[0] == seq!['v'] ==> (obj_line_spec(tokens) == ObjLine::Position
            <==> tokens.len() >= 4),
        tokens.len() >= 1 && tokens[0] == seq!['v', 't'] ==> (obj_line_spec(tokens) == ObjLine::TexCoord
            <==> tokens.len() >= 3),
        tokens.len() >= 1 && tokens[0] == seq!['v', 'n'] ==> (obj_line_spec(tokens) == ObjLine::Normal
            <==> tokens.len() >= 4),
        tokens.len() >= 1 && tokens[0] == seq!['f'] ==> obj_line_spec(tokens) == ObjLine::Face,
        tokens.len() == 0 ==> obj_line_spec(tokens) == ObjLine::Ignored,
        tokens.len() >= 1 && tokens[0] != seq!['v'] && tokens[0] != seq!['v', 't'] && tokens[0]
            != seq!['v', 'n'] && tokens[0] != seq!['f'] ==> obj_line_spec(tokens) == ObjLine::Ignored,
        obj_line_spec(tokens) != ObjLine::Ignored ==> obj_line_spec(tokens.push(extra))
            == obj_line_spec(tokens),
{
    let v = seq!['v'];
    let vt = seq!['v', 't'];
    let vn = seq!['v', 'n'];
    let f = seq!['f'];
    assert(v != f) by {
        assert(v[0] != f[0]);
    }
    assert(vt != vn) by {
        assert(vt[1] != vn[1]);
    }
    assert(v.len() != vt.len() && v.len() != vn.len() && f.len() != vt.len() && f.len() != vn.len());
    if tokens.len() >= 1 {
        assert(tokens.push(extra)[0] == tokens[0]);
    }
}

/// Whether `token` is exactly the one- or two-letter keyword `first` `second`
/// (`second` absent for a one-letter keyword).
fn is_keyword(token: &str, first: char, second: Option<char>) -> (b: bool)
    ensures
        b == (token@ == match second {
            Some(c) => seq![first, c],
            None => seq![first],
        }),
{
    let chars = chars_of(token);
    let ghost want = match second {
        Some(c) => seq![first, c],
        None => seq![first],
    };
    match second {
        Some(c) => {
            if chars.len() == 2 && chars[0] == first && chars[1] == c {
                assert(chars@ =~= want);
                true
            } else {
                assert(chars@ != want) by {
                    if chars@.len() == 2 {
                        assert(chars@[0] == want[0] ==> chars@[1] != want[1]);
                    }
                }
                false
            }
        },
        None => {
            if chars.len() == 1 && chars[0] == first {
                assert(chars@ =~= want);
                true
            } else {
                assert(chars@ != want) by {
                    if chars@.len() == 1 {
                        assert(chars@[0] != want[0]);
                    }
                }
                false
            }
        },
    }
}

/// Classifies a line of an OBJ file already split into non-empty tokens: which kind of
/// element it declares, if any.
pub fn classify_obj_line(tokens: &Vec<String>) -> (kind: ObjLine)
    ensures
        kind == obj_line_spec(tokens@.map_values(|t: String| t@)),
{
    let ghost views = tokens@.map_values(|t: String| t@);
    if tokens.len() == 0 {
        return ObjLine::Ignored;
    }
    let keyword = tokens[0].as_str();
    assert(views[0] == keyword@);
    let n = tokens.len();
    if is_keyword(keyword, 'v', None) {
        if n >= 4 {
            ObjLine::Position
        } else {
            ObjLine::Ignored
        }
    } else if is_keyword(keyword, 'v', Some('t')) {
        if n >= 3 {
            ObjLine::TexCoord
        } else {
            ObjLine::Ignored
        }
    } else if is_keyword(keyword, 'v', Some('n')) {
        if n >= 4 {
            ObjLine::Normal
        } else {
            ObjLine::Ignored
        }
    } else if is_keyword(keyword, 'f', None) {
        ObjLine::Face
    } else {
        ObjLine::Ignored
    }
}

} // verus!
