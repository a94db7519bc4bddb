//! The faces of a mesh, each once and with the colour to paint it in.

use vstd::prelude::*;
use crate::pixels::{Image, Rgb};
use crate::triangle::{
    MeshView,
    RelVertPos,
    Triangle,
    Triangles,
    all_vertices,
    in_buffer,
    neighbor,
};
use crate::vec2::I64x2;
use crate::scoring::{average, colors_in_triangle, get_color_in_triangle, mean_color};

verus! {

/// The two directions that span a face below a vertex: the face that points down,
/// or the one to its right.
pub open spec fn face_below(pointing_down: bool) -> (RelVertPos, RelVertPos) {
    if pointing_down {
        (RelVertPos::DownRight, RelVertPos::DownLeft)
    } else {
        (RelVertPos::Right, RelVertPos::DownRight)
    }
}

/// The face below the vertex at `(x, y)` with the position `p`, where its other two
/// corners are stored.
pub open spec fn owned_face(v: MeshView, x: u32, y: u32, p: I64x2, pointing_down: bool) -> Option<
    Triangle,
> {
    let pair = face_below(pointing_down);
    match (neighbor(v, x as int, y as int, pair.0), neighbor(v, x as int, y as int, pair.1)) {
        (Some(a), Some(b)) => Some(
            Triangle(p, v.rows[a.1 as int][a.0 as int], v.rows[b.1 as int][b.0 as int]),
        ),
        _ => None,
    }
}

/// A face with the mean colour of the pixels that it covers: black where it covers none.
pub open spec fn painted(img: Image, t: Triangle) -> (Rgb, Triangle) {
    (mean_color(colors_in_triangle(img, t)), t)
}

/// `faces`, and after them `face` where there is one.
pub open spec fn with_face(
    img: Image,
    faces: Seq<(Rgb, Triangle)>,
    face: Option<Triangle>,
) -> Seq<(Rgb, Triangle)> {
    match face {
        Some(t) => faces.push(painted(img, t)),
        None => faces,
    }
}

/// The painted faces below the first `n` of the vertices `verts`: for each vertex the
/// face that points down, then the one to its right.
pub open spec fn painted_upto(
    img: Image,
    v: MeshView,
    verts: Seq<(u32, u32, I64x2)>,
    n: int,
) -> Seq<(Rgb, Triangle)>
    decreases n,
{
    if n <= 0 {
        Seq::empty()
    } else {
        let at = verts[n - 1];
        with_face(
            img,
            with_face(img, painted_upto(img, v, verts, n - 1), owned_face(v, at.0, at.1, at.2, true)),
            owned_face(v, at.0, at.1, at.2, false),
        )
    }
}

/// Every face of the mesh, painted, in the order of the vertices above them.
pub open spec fn painted_faces(img: Image, v: MeshView) -> Seq<(Rgb, Triangle)> {
    painted_upto(img, v, all_vertices(v), all_vertices(v).len() as int)
}

fn face_below_vertex(tris: &Triangles, at: (u32, u32, I64x2), pointing_down: bool) -> (r: Option<
    Triangle,
>)
    requires
        tris.wf(),
    ensures
        r == owned_face(tris@, at.0, at.1, at.2, pointing_down),
{
    let pair = if pointing_down {
        (RelVertPos::DownRight, RelVertPos::DownLeft)
    } else {
        (RelVertPos::Right, RelVertPos::DownRight)
    };
    match (tris.pos_rel(at.0, at.1, pair.0), tris.pos_rel(at.0, at.1, pair.1)) {
        (Some(a), Some(b)) => {
            assert(in_buffer(tris@, a.0 as int, a.1 as int));
            assert(in_buffer(tris@, b.0 as int, b.1 as int));
            Some(Triangle(at.2, *tris.get_vert(a.0, a.1), *tris.get_vert(b.0, b.1)))
        },
        _ => None,
    }
}

fn paint(image: &Image, t: Triangle) -> (r: (Rgb, Triangle))
    ensures
        r == painted(*image, t),
{
    (average(&get_color_in_triangle(image, t)), t)
}

/// Every face of the mesh once, each with the mean colour of the pixels it covers.
pub fn colored_faces(tris: &Triangles, image: &Image) -> (r: Vec<(Rgb, Triangle)>)
    requires
        tris.wf(),
    ensures
        r@ == painted_faces(*image, tris@),
{
    let verts = tris.clone().into_iter_verts();
    let mut out: Vec<(Rgb, Triangle)> = Vec::new();
    let mut i: usize = 0;
    while i < verts.len()
        invariant
            i <= verts@.len(),
            tris.wf(),
            verts@ == all_vertices(tris@),
            out@ == painted_upto(*image, tris@, verts@, i as int),
        decreases verts@.len() - i,
    {
        let at = verts[i];
        match face_below_vertex(tris, at, true) {
            Some(t) => {
                out.push(paint(image, t));
            },
            None => {},
        }
        match face_below_vertex(tris, at, false) {
            Some(t) => {
                out.push(paint(image, t));
            },
            None => {},
        }
        i += 1;
    }
    out
}

} // verus!
