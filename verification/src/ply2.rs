use vstd::prelude::*;
use crate::obj::{lemma_split_on_nonempty, parse_i32, parse_i32_spec, split_on, split_ranges};
use crate::text::chars_of;

verus! {

/// Whether `c` is white space in the sense of `char::is_whitespace` (the Unicode
/// `White_Space` property).
pub open spec fn is_whitespace(c: char) -> bool {
    ||| '\t' <= c <= '\r'
    ||| c == ' '
    ||| c == '\u{85}'
    ||| c == '\u{a0}'
    ||| c == '\u{1680}'
    ||| '\u{2000}' <= c <= '\u{200a}'
    ||| c == '\u{2028}'
    ||| c == '\u{2029}'
    ||| c == '\u{202f}'
    ||| c == '\u{205f}'
    ||| c == '\u{3000}'
}

/// `s` without its leading white space.
pub open spec fn trim_start(s: Seq<char>) -> Seq<char>
    decreases s.len(),
{
    if s.len() > 0 && is_whitespace(s[0]) {
        trim_start(s.drop_first())
    } else {
        s
    }
}

/// `s` without its trailing white space.
pub open spec fn trim_end(s: Seq<char>) -> Seq<char>
    decreases s.len(),
{
    if s.len() > 0 && is_whitespace(s.last()) {
        trim_end(s.drop_last())
    } else {
        s
    }
}

/// `s` without leading and trailing white space, as `str::trim` gives it.
pub open spec fn trim(s: Seq<char>) -> Seq<char> {
    trim_end(trim_start(s))
}

/// Whether `c` is white space, as [`is_whitespace`] defines it.
fn is_whitespace_char(c: char) -> (b: bool)
    ensures
        b == is_whitespace(c),
{
    ('\t' <= c && c <= '\r') || c == ' ' || c == '\u{85}' || c == '\u{a0}' || c == '\u{1680}' || (
    '\u{2000}' <= c && c <= '\u{200a}') || c == '\u{2028}' || c == '\u{2029}' || c == '\u{202f}'
        || c == '\u{205f}' || c == '\u{3000}'
}

/// Bounds of `chars[lo..hi]` with leading and trailing white space removed.
pub fn trim_bounds(chars: &Vec<char>, lo: usize, hi: usize) -> (bounds: (usize, usize))
    requires
        lo <= hi <= chars@.len(),
    ensures
        lo <= bounds.0 <= bounds.1 <= hi,
        chars@.subrange(bounds.0 as int, bounds.1 as int) == trim(
            chars@.subrange(lo as int, hi as int),
        ),
{
    let mut a = lo;
    while a < hi && is_whitespace_char(chars[a])
        invariant
            lo <= a <= hi <= chars@.len(),
            trim_start(chars@.subrange(lo as int, hi as int)) == trim_start(
                chars@.subrange(a as int, hi as int),
            ),
        decreases hi - a,
    {
        assert(chars@.subrange(a as int, hi as int).drop_first() =~= chars@.subrange(
            a + 1,
            hi as int,
        ));
        a = a + 1;
    }
    assert(trim_start(chars@.subrange(a as int, hi as int)) == chars@.subrange(a as int, hi as int));
    let mut b = hi;
    while b > a && is_whitespace_char(chars[b - 1])
        invariant
            lo <= a <= b <= hi <= chars@.len(),
            trim(chars@.subrange(lo as int, hi as int)) == trim_end(
                chars@.subrange(a as int, b as int),
            ),
        decreases b - a,
    {
        assert(chars@.subrange(a as int, b as int).drop_last() =~= chars@.subrange(
            a as int,
            b - 1,
        ));
        b = b - 1;
    }
    (a, b)
}

/// The count on a header line of a PLY2 file: the line, trimmed, read as an `i32`.
pub fn parse_ply2_count(line: &str) -> (count: Option<i32>)
    ensures
        count == parse_i32_spec(trim(line@)),
{
    let chars = chars_of(line);
    let (a, b) = trim_bounds(&chars, 0, chars.len());
    assert(chars@.subrange(0, chars@.len() as int) =~= chars@);
    parse_i32(&chars, a, b)
}

/// The numbers of a face line, as the PLY2 loader reads them: the trimmed line split at
/// single spaces, each piece trimmed and read as an `i32`; `None` when a piece is not
/// such a number.
pub open spec fn face_line_numbers(line: Seq<char>) -> Option<Seq<i32>> {
    let pieces = split_on(trim(line), ' ');
    if forall|k: int| 0 <= k < pieces.len() ==> (#[trigger] parse_i32_spec(trim(pieces[k]))) is Some {
        Some(Seq::new(pieces.len(), |k: int| parse_i32_spec(trim(pieces[k]))->0))
    } else {
        None
    }
}

/// The vertex numbers of a face line: the first number counts the vertices that follow;
/// `None` when a number is unreadable, when the count runs past the end of the line, or
/// when it is `i32::MAX`. A negative count gives no vertices.
pub open spec fn face_spec(line: Seq<char>) -> Option<Seq<i32>> {
    match face_line_numbers(line) {
        None => None,
        Some(numbers) => {
            let n = numbers[0] as int;
            if n == i32::MAX || n >= numbers.len() {
                None
            } else if n <= 0 {
                Some(Seq::empty())
            } else {
                Some(numbers.subrange(1, n + 1))
            }
        },
    }
}

/// Reads a face line of a PLY2 file (`n v1 v2 ... vn`) into its vertex numbers.
pub fn parse_ply2_face(line: &str) -> (face: Option<Vec<i32>>)
    ensures
        face matches Some(f) ==> face_spec(line@) == Some(f@),
        face is None ==> face_spec(line@) is None,
{
    let chars = chars_of(line);
    let (a, b) = trim_bounds(&chars, 0, chars.len());
    assert(chars@.subrange(0, chars@.len() as int) =~= chars@);
    let ghost trimmed = trim(line@);
    let pieces = split_ranges(&chars, a, b, ' ');
    let ghost spec_pieces = split_on(trimmed, ' ');
    proof {
        lemma_split_on_nonempty(trimmed, ' ');
    }
    let mut faces_list: Vec<i32> = Vec::new();
    let mut k: usize = 0;
    while k < pieces.len()
        invariant
            0 <= k <= pieces@.len(),
            pieces@.len() == spec_pieces.len(),
            spec_pieces == split_on(trimmed, ' '),
            trimmed == trim(line@),
            chars@ == line@,
            chars@.subrange(a as int, b as int) == trimmed,
            a <= b <= chars@.len(),
            forall|j: int|
                0 <= j < pieces@.len() ==> {
                    &&& a <= (#[trigger] pieces@[j]).0 <= pieces@[j].1 <= b
                    &&& chars@.subrange(pieces@[j].0 as int, pieces@[j].1 as int)
                        == spec_pieces[j]
                },
            faces_list@.len() == k,
            forall|j: int|
                0 <= j < k ==> parse_i32_spec(trim(spec_pieces[j])) == Some(
                    #[trigger] faces_list@[j],
                ),
        decreases pieces@.len() - k,
    {
        let (p0, p1) = pieces[k];
        let (t0, t1) = trim_bounds(&chars, p0, p1);
        match parse_i32(&chars, t0, t1) {
            Some(v) => faces_list.push(v),
            None => {
                proof {
                    assert(!(parse_i32_spec(trim(spec_pieces[k as int])) is Some));
                }
                return None;
            },
        }
        k = k + 1;
    }
    let ghost numbers = Seq::new(
        spec_pieces.len(),
        |j: int| parse_i32_spec(trim(spec_pieces[j]))->0,
    );
    proof {
        assert forall|j: int| 0 <= j < spec_pieces.len() implies (#[trigger] parse_i32_spec(
            trim(spec_pieces[j]),
        )) is Some by {
            assert(parse_i32_spec(trim(spec_pieces[j])) == Some(faces_list@[j]));
        }
        assert(face_line_numbers(line@) == Some(numbers));
        assert forall|j: int| 0 <= j < numbers.len() implies numbers[j] == faces_list@[j] by {
            assert(parse_i32_spec(trim(spec_pieces[j])) == Some(faces_list@[j]));
        }
        assert(faces_list@ =~= numbers);
    }
    let vertices_in_face = faces_list[0];
    if vertices_in_face == i32::MAX {
        return None;
    }
    let mut face: Vec<i32> = Vec::new();
    let mut i: i32 = 1;
    while i < vertices_in_face + 1
        invariant
            1 <= i,
            vertices_in_face < i32::MAX,
            vertices_in_face >= 1 ==> i <= vertices_in_face + 1,
            vertices_in_face < 1 ==> i == 1,
            faces_list@ == numbers,
            face_line_numbers(line@) == Some(numbers),
            numbers.len() >= 1,
            i <= numbers.len(),
            vertices_in_face == numbers[0],
            face@ == numbers.subrange(1, i as int),
        decreases vertices_in_face + 1 - i,
    {
        if i as usize >= faces_list.len() {
            return None;
        }
        face.push(faces_list[i as usize]);
        assert(numbers.subrange(1, i + 1) =~= numbers.subrange(1, i as int).push(
            numbers[i as int],
        ));
        i = i + 1;
    }
    proof {
        if vertices_in_face <= 0 {
            assert(face@ =~= Seq::<i32>::empty());
        }
    }
    Some(face)
}

/// The parts of a PLY2 file, in the order they come.
#[derive(Copy, Clone, Debug, PartialEq, Eq, Structural)]
pub enum Ply2Part {
    NumVertices,
    NumFaces,
    Vertices,
    Faces,
}

/// Where a PLY2 loader stands: which part the next line belongs to (`current_section`
/// counts the parts finished, 4 meaning the whole model has been read), the two counts
/// from the header and how many vertices and faces have been read.
#[derive(Copy, Clone, Debug, PartialEq, Eq, Structural)]
pub struct Ply2Progress {
    pub current_section: usize,
    pub num_vertices: i32,
    pub num_faces: i32,
    pub current_vertex: i32,
    pub current_face: i32,
}

/// Part number `section` of a PLY2 file.
pub open spec fn part_of(section: int) -> Ply2Part {
    if section == 0 {
        Ply2Part::NumVertices
    } else if section == 1 {
        Ply2Part::NumFaces
    } else if section == 2 {
        Ply2Part::Vertices
    } else {
        Ply2Part::Faces
    }
}

/// Progress after one more vertex line: the vertex part ends once the counted number
/// of vertices has been read.
pub open spec fn after_vertex(p: Ply2Progress) -> Ply2Progress {
    let v = (p.current_vertex + 1) as i32;
    Ply2Progress {
        current_vertex: v,
        current_section: if v == p.num_vertices {
            (p.current_section + 1) as usize
        } else {
            p.current_section
        },
        ..p
    }
}

/// Progress after one more face line: the face part ends once the counted number of
/// faces has been read.
pub open spec fn after_face(p: Ply2Progress) -> Ply2Progress {
    let f = (p.current_face + 1) as i32;
    Ply2Progress {
        current_face: f,
        current_section: if f == p.num_faces {
            (p.current_section + 1) as usize
        } else {
            p.current_section
        },
        ..p
    }
}

/// Progress after `k` vertex lines.
pub open spec fn after_vertices(p: Ply2Progress, k: nat) -> Ply2Progress
    decreases k,
{
    if k == 0 {
        p
    } else {
        after_vertex(after_vertices(p, (k - 1) as nat))
    }
}

/// Progress after `k` face lines.
pub open spec fn after_faces(p: Ply2Progress, k: nat) -> Ply2Progress
    decreases k,
{
    if k == 0 {
        p
    } else {
        after_face(after_faces(p, (k - 1) as nat))
    }
}

impl Ply2Progress {
    /// Nothing read yet.
    pub fn new() -> (progress: Self)
        ensures
            progress == (Ply2Progress {
                current_section: 0,
                num_vertices: 0,
                num_faces: 0,
                current_vertex: 0,
                current_face: 0,
            }),
    {
        Ply2Progress { current_section: 0, num_vertices: 0, num_faces: 0, current_vertex: 0, current_face: 0 }
    }

    /// The part the next line belongs to, or `None` once the model is complete.
    pub fn part(&self) -> (part: Option<Ply2Part>)
        ensures
            self.current_section >= 4 ==> part is None,
            self.current_section < 4 ==> part == Some(part_of(self.current_section as int)),
    {
        if self.current_section == 0 {
            Some(Ply2Part::NumVertices)
        } else if self.current_section == 1 {
            Some(Ply2Part::NumFaces)
        } else if self.current_section == 2 {
            Some(Ply2Part::Vertices)
        } else if self.current_section == 3 {
            Some(Ply2Part::Faces)
        } else {
            None
        }
    }

    /// Records the vertex count read from the first header line.
    pub fn record_num_vertices(&mut self, num_vertices: i32)
        requires
            old(self).current_section < usize::MAX,
        ensures
            *final(self) == (Ply2Progress {
                num_vertices,
                current_section: (old(self).current_section + 1) as usize,
                ..*old(self)
            }),
    {
        self.num_vertices = num_vertices;
        self.current_section = self.current_section + 1;
    }

    /// Records the face count read from the second header line.
    pub fn record_num_faces(&mut self, num_faces: i32)
        requires
            old(self).current_section < usize::MAX,
        ensures
            *final(self) == (Ply2Progress {
                num_faces,
                current_section: (old(self).current_section + 1) as usize,
                ..*old(self)
            }),
    {
        self.num_faces = num_faces;
        self.current_section = self.current_section + 1;
    }

    /// Records one vertex line.
    pub fn record_vertex(&mut self)
        requires
            old(self).current_vertex < i32::MAX,
            old(self).current_section < usize::MAX,
        ensures
            *final(self) == after_vertex(*old(self)),
    {
        self.current_vertex = self.current_vertex + 1;
        if self.current_vertex == self.num_vertices {
            self.current_section = self.current_section + 1;
        }
    }

    /// Records one face line.
    pub fn record_face(&mut self)
        requires
            old(self).current_face < i32::MAX,
            old(self).current_section < usize::MAX,
        ensures
            *final(self) == after_face(*old(self)),
    {
        self.current_face = self.current_face + 1;
        if self.current_face == self.num_faces {
            self.current_section = self.current_section + 1;
        }
    }
}

proof fn lemma_after_vertices(p: Ply2Progress, k: nat)
    requires
        p.current_vertex == 0,
        k <= p.num_vertices,
    ensures
        after_vertices(p, k) == (Ply2Progress {
            current_vertex: k as i32,
            current_section: if k == p.num_vertices && k > 0 {
                (p.current_section + 1) as usize
            } else {
                p.current_section
            },
            ..p
        }),
    decreases k,
{
    if k > 0 {
        lemma_after_vertices(p, (k - 1) as nat);
    }
}

proof fn lemma_after_faces(p: Ply2Progress, k: nat)
    requires
        p.current_face == 0,
        k <= p.num_faces,
    ensures
        after_faces(p, k) == (Ply2Progress {
            current_face: k as i32,
            current_section: if k == p.num_faces && k > 0 {
                (p.current_section + 1) as usize
            } else {
                p.current_section
            },
            ..p
        }),
    decreases k,
{
    if k > 0 {
        lemma_after_faces(p, (k - 1) as nat);
    }
}

/// A PLY2 file with `nv` vertices and `nf` faces (both at least one) is complete after
/// its two header lines, `nv` vertex lines and `nf` face lines, and not before the last
/// of them.
pub proof fn ply2_reads_header_vertices_then_faces(nv: i32, nf: i32)
    requires
        nv >= 1,
        nf >= 1,
    ensures
        ({
            let header = Ply2Progress {
                current_section: 2,
                num_vertices: nv,
                num_faces: nf,
                current_vertex: 0,
                current_face: 0,
            };
            let vertices_read = after_vertices(header, nv as nat);
            &&& forall|k: nat| k < nv ==> #[trigger] after_vertices(header, k).current_section == 2
            &&& vertices_read.current_section == 3
            &&& forall|k: nat| k < nf ==> #[trigger] after_faces(vertices_read, k).current_section == 3
            &&& after_faces(vertices_read, nf as nat).current_section == 4
        }),
{
    let header = Ply2Progress {
        current_section: 2,
        num_vertices: nv,
        num_faces: nf,
        current_vertex: 0,
        current_face: 0,
    };
    assert forall|k: nat| k < nv implies #[trigger] after_vertices(header, k).current_section == 2 by {
        lemma_after_vertices(header, k);
    }
    lemma_after_vertices(header, nv as nat);
    let vertices_read = after_vertices(header, nv as nat);
    assert forall|k: nat| k < nf implies #[trigger] after_faces(vertices_read, k).current_section == 3 by {
        lemma_after_faces(vertices_read, k);
    }
    lemma_after_faces(vertices_read, nf as nat);
}

} // verus!
