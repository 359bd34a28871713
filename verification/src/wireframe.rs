use vstd::prelude::*;
use crate::pixels::Pixel;
use crate::line::{line_fits, paint_line, rasterize_line};

verus! {

/// How filled triangles are shaded.
#[derive(Copy, Clone, Debug, PartialEq, Eq, Structural)]
pub enum ShadingModel {
    Flat,
    Gouraud,
    Phong,
}

/// Switches of the scene renderer.
#[derive(Copy, Clone, Debug, PartialEq, Eq, Structural)]
pub struct RenderingSettings {
    pub shading_model: ShadingModel,
    pub show_normals: bool,
    pub backface_culling: bool,
}

/// Index, within the face, of the vertex that edge `j` of an `n`-vertex face ends at:
/// the next vertex, wrapping around to the first after the last.
pub open spec fn face_edge_end(n: int, j: int) -> int {
    if j + 1 < n {
        j + 1
    } else {
        0
    }
}

/// Pixel of the `j`-th vertex of the face.
pub open spec fn face_vertex_pixel(face: Seq<i32>, vertex_pixels: Seq<Pixel>, j: int) -> Pixel {
    vertex_pixels[face[j] as int]
}

/// The buffer after drawing the first `n` edges of the face, in order.
pub open spec fn paint_face_edges(
    buf: Seq<u8>,
    face: Seq<i32>,
    vertex_pixels: Seq<Pixel>,
    size: int,
    n: int,
) -> Seq<u8>
    decreases n,
{
    if n <= 0 {
        buf
    } else {
        paint_line(
            paint_face_edges(buf, face, vertex_pixels, size, n - 1),
            face_vertex_pixel(face, vertex_pixels, n - 1),
            face_vertex_pixel(face, vertex_pixels, face_edge_end(face.len() as int, n - 1)),
            size,
        )
    }
}

/// Whether a face can be drawn: its vertex numbers index `vertex_pixels`, and each of its
/// edges fits a buffer of `len` bytes of a canvas `size` pixels wide.
pub open spec fn face_fits(face: Seq<i32>, vertex_pixels: Seq<Pixel>, size: int, len: int) -> bool {
    &&& forall|j: int| 0 <= j < face.len() ==> 0 <= #[trigger] face[j] < vertex_pixels.len()
    &&& forall|j: int|
        0 <= j < face.len() ==> #[trigger] line_fits(
            face_vertex_pixel(face, vertex_pixels, j),
            face_vertex_pixel(face, vertex_pixels, face_edge_end(face.len() as int, j)),
            size,
            len,
        )
}

/// Draws the outline of a polygonal face: the edge from each vertex to the next and
/// from the last back to the first, each in the colour of its starting vertex.
pub fn draw_face(face: &Vec<i32>, vertex_pixels: &Vec<Pixel>, buffer: &mut [u8], size: usize)
    requires
        face_fits(face@, vertex_pixels@, size as int, old(buffer)@.len() as int),
    ensures
        final(buffer)@ == paint_face_edges(
            old(buffer)@,
            face@,
            vertex_pixels@,
            size as int,
            face@.len() as int,
        ),
{
    let ghost old_buf = buffer@;
    let n = face.len();
    let mut vertex_index: usize = 0;
    while vertex_index < n
        invariant
            n == face@.len(),
            0 <= vertex_index <= n,
            face_fits(face@, vertex_pixels@, size as int, old_buf.len() as int),
            buffer@.len() == old_buf.len(),
            buffer@ == paint_face_edges(
                old_buf,
                face@,
                vertex_pixels@,
                size as int,
                vertex_index as int,
            ),
        decreases n - vertex_index,
    {
        let start_vertex;
        let end_vertex;
        if vertex_index + 1 < n {
            start_vertex = vertex_index;
            end_vertex = vertex_index + 1;
        } else {
            start_vertex = vertex_index;
            end_vertex = 0;
        }
        proof {
            assert(0 <= face@[start_vertex as int] < vertex_pixels@.len());
            assert(0 <= face@[end_vertex as int] < vertex_pixels@.len());
            assert(line_fits(
                face_vertex_pixel(face@, vertex_pixels@, vertex_index as int),
                face_vertex_pixel(face@, vertex_pixels@, face_edge_end(n as int, vertex_index as int)),
                size as int,
                old_buf.len() as int,
            ));
        }
        rasterize_line(
            vertex_pixels[face[start_vertex] as usize],
            vertex_pixels[face[end_vertex] as usize],
            buffer,
            size,
        );
        vertex_index = vertex_index + 1;
    }
}

/// Placeholder for rendering the scene to a video file; it renders nothing.
pub fn render_video() {
}

} // verus!
