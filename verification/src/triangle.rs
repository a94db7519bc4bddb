//! The mesh: vertex positions on a triangular lattice, with neighbour and face queries.

use vstd::prelude::*;
use vstd::std_specs::cmp::PartialEqSpec;
use crate::vec2::I64x2;
use crate::UNIT;

verus! {

/// The six lattice neighbours of a vertex.
#[derive(Debug, Clone, Copy, PartialEq, Eq, Hash, Structural)]
pub enum RelVertPos {
    UpRight,
    Right,
    DownRight,
    DownLeft,
    Left,
    UpLeft,
}

/// Largest nominal lattice dimension: every buffer index then fits in `u32`.
pub const MAX_SCALE: u32 = 0xffff_fffd;

/// What a mesh holds: its rows of vertices (`rows[sy][sx]`), the nominal lattice
/// dimensions, the pixel dimensions it was made for and the spacing of the lattice.
pub struct MeshView {
    pub rows: Seq<Seq<I64x2>>,
    pub scale_size: (u32, u32),
    pub real_size: (u32, u32),
    pub size_of_chunk: i64,
}

/// Number of vertices in row `y` of a lattice that spans `columns` chunks: one more
/// than chunks, and one more again in even rows, which are shifted by half a chunk.
pub open spec fn row_len(columns: int, y: int) -> int {
    if y % 2 == 0 {
        columns + 2
    } else {
        columns + 1
    }
}

/// The number of chunks that the buffer spans across and down.
pub open spec fn extent(v: MeshView) -> (int, int) {
    (v.rows[0].len() - 2, v.rows.len() - 1)
}

/// The buffer has the shape of a lattice: every row is as long as its parity asks,
/// and the lattice spans its nominal dimensions, or one chunk more where the image
/// is no multiple of the spacing.
pub open spec fn well_shaped(v: MeshView) -> bool {
    &&& v.rows.len() >= 1
    &&& v.scale_size.0 <= extent(v).0 <= v.scale_size.0 + 1
    &&& v.scale_size.1 <= extent(v).1 <= v.scale_size.1 + 1
    &&& extent(v).0 <= MAX_SCALE
    &&& extent(v).1 <= MAX_SCALE
    &&& forall|y: int|
        0 <= y < v.rows.len() ==> (#[trigger] v.rows[y]).len() == row_len(extent(v).0, y)
}

/// A vertex is stored at lattice coordinate `(x, y)`.
pub open spec fn in_buffer(v: MeshView, x: int, y: int) -> bool {
    0 <= y < v.rows.len() && 0 <= x < v.rows[y].len()
}

/// The lattice coordinate next to `(x, y)` in direction `pos`, whether stored or not.
/// A diagonal step to an odd row keeps `x` when leaning right and lowers it when leaning
/// left; a diagonal step to an even row raises it when leaning right and keeps it when
/// leaning left.
pub open spec fn neighbor_coord(x: int, y: int, pos: RelVertPos) -> (int, int) {
    let ny = match pos {
        RelVertPos::UpLeft | RelVertPos::UpRight => y - 1,
        RelVertPos::DownLeft | RelVertPos::DownRight => y + 1,
        RelVertPos::Left | RelVertPos::Right => y,
    };
    let nx = match pos {
        RelVertPos::Left => x - 1,
        RelVertPos::Right => x + 1,
        RelVertPos::UpLeft | RelVertPos::DownLeft => if ny % 2 == 1 {
            x - 1
        } else {
            x
        },
        RelVertPos::UpRight | RelVertPos::DownRight => if ny % 2 == 0 {
            x + 1
        } else {
            x
        },
    };
    (nx, ny)
}

/// The stored neighbour of `(x, y)` in direction `pos`, if there is one.
pub open spec fn neighbor(v: MeshView, x: int, y: int, pos: RelVertPos) -> Option<(u32, u32)> {
    let (nx, ny) = neighbor_coord(x, y, pos);
    if in_buffer(v, nx, ny) {
        Some((nx as u32, ny as u32))
    } else {
        None
    }
}

/// `(x, y)` lies on the boundary of the nominal rectangle.
pub open spec fn is_edge(v: MeshView, x: int, y: int) -> bool {
    let o: int = if y % 2 == 1 {
        0
    } else {
        1
    };
    x == 0 || x >= v.scale_size.0 + o || y == 0 || y >= v.scale_size.1
}

/// Largest spacing of a lattice: every vertex position then fits in `i64`.
pub const MAX_CHUNK: i64 = 0x2000_0000_0000_0000;

/// Number of whole chunks of `size` units in `pixels` pixels.
pub open spec fn chunks_in(pixels: u32, size: i64) -> int {
    (pixels * UNIT) / (size as int)
}

/// Number of chunks of `size` units that it takes to cover `pixels` pixels.
pub open spec fn chunks_over(pixels: u32, size: i64) -> int {
    (pixels * UNIT + size - 1) / (size as int)
}

/// A lattice can be built for these pixel dimensions and this spacing: the spacing is
/// strictly positive and neither it nor the number of vertices exceeds the machine's limits.
pub open spec fn valid_config(width: u32, height: u32, size: i64) -> bool {
    &&& 0 < size <= MAX_CHUNK
    &&& chunks_over(width, size) <= MAX_SCALE
    &&& chunks_over(height, size) <= MAX_SCALE
}

/// A dimension of an image in pixels, padded for a mesh over it: by what the spacing
/// exceeds the remainder of the dimension by the spacing in whole pixels, rounded down.
pub open spec fn padded(dim: u32, tri_size: i64) -> int {
    let whole = (tri_size + UNIT - 1) / (UNIT as int);
    let left = (tri_size - (dim as int % whole) * UNIT) / (UNIT as int);
    dim + if left < 0 {
        0
    } else {
        left
    }
}

/// A dimension of an image in pixels, padded for a mesh with the spacing `tri_size`.
pub fn padded_dimension(dim: u32, tri_size: i64) -> (r: u64)
    requires
        0 < tri_size,
    ensures
        r == padded(dim, tri_size),
        r <= 0xffff_ffff + 0x8000_0000_0000,
{
    let whole: i64 = (tri_size - 1) / UNIT + 1;
    assert(whole == (tri_size + UNIT - 1) / (UNIT as int));
    let rem: i64 = dim as i64 % whole;
    let left: i64 = tri_size - rem * UNIT;
    if left < 0 {
        dim as u64
    } else {
        dim as u64 + (left / UNIT) as u64
    }
}

/// Where the vertex `(x, y)` of a regular lattice with spacing `size` lies: rows are
/// `size` apart, and even rows are shifted left by half a chunk.
pub open spec fn lattice_vertex(size: i64, x: int, y: int) -> I64x2 {
    I64x2 {
        x: (x * size - if y % 2 == 1 {
            0
        } else {
            size / 2
        }) as i64,
        y: (y * size) as i64,
    }
}

/// The rows of a regular lattice that spans `columns` by `rows` chunks of `size` units.
pub open spec fn regular_rows(columns: int, rows: int, size: i64) -> Seq<Seq<I64x2>> {
    Seq::new(
        (rows + 1) as nat,
        |y: int| Seq::new(row_len(columns, y) as nat, |x: int| lattice_vertex(size, x, y)),
    )
}

/// The mesh that `Triangles::new` builds: its nominal dimensions are the whole chunks in
/// the image, and its rows span the chunks that it takes to cover the image.
pub open spec fn regular_mesh(width: u32, height: u32, size: i64) -> MeshView {
    MeshView {
        rows: regular_rows(chunks_over(width, size), chunks_over(height, size), size),
        scale_size: (chunks_in(width, size) as u32, chunks_in(height, size) as u32),
        real_size: (width, height),
        size_of_chunk: size,
    }
}

/// The chunks that cover a length are the whole chunks in it, and one more where the
/// length is no multiple of the spacing; they reach the length and end less than a
/// chunk after it.
pub proof fn lemma_chunks_bound(pixels: u32, size: i64)
    requires
        0 < size,
    ensures
        0 <= chunks_in(pixels, size),
        chunks_in(pixels, size) * size <= pixels * UNIT,
        chunks_over(pixels, size) == chunks_in(pixels, size) + if (pixels * UNIT) % (size as int)
            == 0 {
            0int
        } else {
            1int
        },
        pixels * UNIT <= chunks_over(pixels, size) * size < pixels * UNIT + size,
{
    let n = pixels * UNIT;
    let d = size as int;
    let q = n / d;
    let r = n % d;
    vstd::arithmetic::div_mod::lemma_fundamental_div_mod(n, d);
    vstd::arithmetic::div_mod::lemma_mod_bound(n, d);
    vstd::arithmetic::div_mod::lemma_div_pos_is_pos(n, d);
    assert(d * q == q * d) by (nonlinear_arith);
    if r == 0 {
        assert(n + d - 1 == q * d + (d - 1));
        vstd::arithmetic::div_mod::lemma_fundamental_div_mod_converse(n + d - 1, d, q, d - 1);
    } else {
        assert(n + d - 1 == (q + 1) * d + (r - 1)) by (nonlinear_arith)
            requires
                n == d * q + r,
        ;
        vstd::arithmetic::div_mod::lemma_fundamental_div_mod_converse(n + d - 1, d, q + 1, r - 1);
        assert((q + 1) * d == q * d + d) by (nonlinear_arith);
    }
}

/// One row of a regular lattice.
fn regular_row(y: u32, len: u32, size: i64) -> (row: Vec<I64x2>)
    requires
        0 < size <= MAX_CHUNK,
        len * size <= 0x1_0000_0000_0000 + 3 * size,
        y * size <= 0x1_0000_0000_0000 + size,
    ensures
        row@ == Seq::new(len as nat, |x: int| lattice_vertex(size, x, y as int)),
{
    let half: i64 = if y % 2 == 1 {
        0
    } else {
        size / 2
    };
    assert(y * size >= 0) by (nonlinear_arith)
        requires
            0 < size,
            0 <= y,
    ;
    let py: i64 = (y as i64) * size;
    let mut row: Vec<I64x2> = Vec::new();
    let mut x: u32 = 0;
    while x < len
        invariant
            x <= len,
            0 < size <= MAX_CHUNK,
            len * size <= 0x1_0000_0000_0000 + 3 * size,
            0 <= half <= size,
            half == (if y % 2 == 1 {
                0
            } else {
                size / 2
            }),
            py == y * size,
            row@ == Seq::new(x as nat, |i: int| lattice_vertex(size, i, y as int)),
        decreases len - x,
    {
        assert(0 <= x * size <= len * size - size) by (nonlinear_arith)
            requires
                0 < size,
                0 <= x < len,
        ;
        let px: i64 = (x as i64) * size - half;
        row.push(I64x2 { x: px, y: py });
        assert(row@ =~= Seq::new((x + 1) as nat, |i: int| lattice_vertex(size, i, y as int)));
        x += 1;
    }
    row
}

/// Whether the chunks that it takes to cover `pixels` pixels can be counted.
fn can_cover(pixels: u32, size: i64) -> (r: bool)
    requires
        0 < size,
    ensures
        r == (chunks_over(pixels, size) <= MAX_SCALE),
{
    proof {
        lemma_chunks_bound(pixels, size);
    }
    let length: i64 = pixels as i64 * UNIT;
    let whole: i64 = length / size;
    if length % size == 0 {
        whole <= MAX_SCALE as i64
    } else {
        whole + 1 <= MAX_SCALE as i64
    }
}

/// The chunks that it takes to cover `pixels` pixels, counted from the whole chunks.
fn chunks_to_cover(pixels: u32, size: i64) -> (r: (u32, u32))
    requires
        0 < size,
        chunks_over(pixels, size) <= MAX_SCALE,
    ensures
        r.0 == chunks_in(pixels, size),
        r.1 == chunks_over(pixels, size),
{
    proof {
        lemma_chunks_bound(pixels, size);
    }
    let length: i64 = pixels as i64 * UNIT;
    let whole: u32 = (length / size) as u32;
    if length % size == 0 {
        (whole, whole)
    } else {
        (whole, whole + 1)
    }
}

/// Builds the rows of a regular lattice that covers `width` by `height` pixels with
/// vertices `size` units apart, and returns them with the nominal lattice dimensions:
/// the whole chunks in the image. The rows span one chunk more where the image is no
/// multiple of the spacing.
pub fn generate_regular_points(width: u32, height: u32, size: i64) -> (r: (
    u32,
    u32,
    Vec<Vec<I64x2>>,
))
    requires
        valid_config(width, height, size),
    ensures
        r.0 == chunks_in(width, size),
        r.1 == chunks_in(height, size),
        r.2@.len() == chunks_over(height, size) + 1,
        forall|y: int|
            0 <= y < r.2@.len() ==> (#[trigger] r.2@[y])@ == regular_rows(
                chunks_over(width, size),
                chunks_over(height, size),
                size,
            )[y],
{
    proof {
        lemma_chunks_bound(width, size);
        lemma_chunks_bound(height, size);
    }
    let (scale_width, columns) = chunks_to_cover(width, size);
    let (scale_height, rows) = chunks_to_cover(height, size);
    let mut buf: Vec<Vec<I64x2>> = Vec::new();
    let mut y: u32 = 0;
    while y <= rows
        invariant
            y <= rows + 1,
            rows <= MAX_SCALE,
            columns <= MAX_SCALE,
            0 < size <= MAX_CHUNK,
            columns * size <= 0x1_0000_0000_0000 + size,
            rows * size <= 0x1_0000_0000_0000 + size,
            buf@.len() == y,
            forall|i: int|
                0 <= i < y ==> (#[trigger] buf@[i])@ == regular_rows(
                    columns as int,
                    rows as int,
                    size,
                )[i],
        decreases rows + 1 - y,
    {
        let len: u32 = if y % 2 == 0 {
            columns + 2
        } else {
            columns + 1
        };
        assert(len * size <= 0x1_0000_0000_0000 + 3 * size && y * size <= 0x1_0000_0000_0000
            + size) by (nonlinear_arith)
            requires
                0 < size,
                0 <= len <= columns + 2,
                0 <= y <= rows,
                columns * size <= 0x1_0000_0000_0000 + size,
                rows * size <= 0x1_0000_0000_0000 + size,
        ;
        let row = regular_row(y, len, size);
        buf.push(row);
        y += 1;
    }
    (scale_width, scale_height, buf)
}

/// The direction that leads back.
pub open spec fn opposite(pos: RelVertPos) -> RelVertPos {
    match pos {
        RelVertPos::UpRight => RelVertPos::DownLeft,
        RelVertPos::Right => RelVertPos::Left,
        RelVertPos::DownRight => RelVertPos::UpLeft,
        RelVertPos::DownLeft => RelVertPos::UpRight,
        RelVertPos::Left => RelVertPos::Right,
        RelVertPos::UpLeft => RelVertPos::DownRight,
    }
}

/// Neighbourhood is symmetric: where a stored vertex has a neighbour in some direction,
/// the step back from that neighbour in the opposite direction ends at the vertex, on
/// odd rows as on even ones.
pub proof fn lemma_neighbor_symmetric(v: MeshView, x: u32, y: u32, pos: RelVertPos)
    requires
        well_shaped(v),
        in_buffer(v, x as int, y as int),
        neighbor(v, x as int, y as int, pos).is_some(),
    ensures
        ({
            let q = neighbor(v, x as int, y as int, pos).unwrap();
            neighbor(v, q.0 as int, q.1 as int, opposite(pos)) == Some((x, y))
        }),
{
}

/// A stored vertex that is not pinned is interior: all six of its neighbours are stored.
/// So every vertex on the rim of the mesh, where a neighbour is missing, is pinned.
pub proof fn lemma_interior_has_all_neighbors(v: MeshView, x: u32, y: u32, pos: RelVertPos)
    requires
        well_shaped(v),
        in_buffer(v, x as int, y as int),
        !is_edge(v, x as int, y as int),
    ensures
        neighbor(v, x as int, y as int, pos).is_some(),
{
    let (nx, ny) = neighbor_coord(x as int, y as int, pos);
    assert(0 <= ny <= v.scale_size.1);
    assert(v.rows[ny].len() == row_len(extent(v).0, ny));
}

/// A vertex in the first or last stored row, or first or last in its row, is pinned.
pub proof fn lemma_rim_is_edge(v: MeshView, x: u32, y: u32)
    requires
        well_shaped(v),
        in_buffer(v, x as int, y as int),
        x == 0 || y == 0 || x == v.rows[y as int].len() - 1 || y == v.rows.len() - 1,
    ensures
        is_edge(v, x as int, y as int),
{
    assert(v.rows[y as int].len() == row_len(extent(v).0, y as int));
}

/// A face of the mesh: the positions of its three corners.
#[derive(Debug, Clone, Copy, PartialEq, Eq, Structural)]
pub struct Triangle(pub I64x2, pub I64x2, pub I64x2);

impl Triangle {
    /// The triangle moved by `(x, y)`.
    pub fn offset(self, x: i64, y: i64) -> (r: Self)
        requires
            i64::MIN <= self.0.x + x <= i64::MAX,
            i64::MIN <= self.1.x + x <= i64::MAX,
            i64::MIN <= self.2.x + x <= i64::MAX,
            i64::MIN <= self.0.y + y <= i64::MAX,
            i64::MIN <= self.1.y + y <= i64::MAX,
            i64::MIN <= self.2.y + y <= i64::MAX,
        ensures
            r.0.x == self.0.x + x && r.0.y == self.0.y + y,
            r.1.x == self.1.x + x && r.1.y == self.1.y + y,
            r.2.x == self.2.x + x && r.2.y == self.2.y + y,
    {
        Triangle(
            I64x2 { x: self.0.x + x, y: self.0.y + y },
            I64x2 { x: self.1.x + x, y: self.1.y + y },
            I64x2 { x: self.2.x + x, y: self.2.y + y },
        )
    }
}

/// The two directions that span the `k`-th face around a vertex, counted clockwise
/// from the face above it.
pub open spec fn direction_pair(k: int) -> (RelVertPos, RelVertPos) {
    if k == 0 {
        (RelVertPos::UpLeft, RelVertPos::UpRight)
    } else if k == 1 {
        (RelVertPos::UpRight, RelVertPos::Right)
    } else if k == 2 {
        (RelVertPos::Right, RelVertPos::DownRight)
    } else if k == 3 {
        (RelVertPos::DownRight, RelVertPos::DownLeft)
    } else if k == 4 {
        (RelVertPos::DownLeft, RelVertPos::Left)
    } else {
        (RelVertPos::Left, RelVertPos::UpLeft)
    }
}

/// The corners of the `k`-th face around `(x, y)`: the vertex itself and its two
/// neighbours in the directions of `direction_pair(k)`, where both are stored.
pub open spec fn face_location(v: MeshView, x: u32, y: u32, k: int) -> Option<Seq<(u32, u32)>> {
    let pair = direction_pair(k);
    match (neighbor(v, x as int, y as int, pair.0), neighbor(v, x as int, y as int, pair.1)) {
        (Some(b), Some(c)) => Some(seq![(x, y), b, c]),
        _ => None,
    }
}

/// The faces among the first `k` around `(x, y)`, in order.
pub open spec fn face_locations_upto(v: MeshView, x: u32, y: u32, k: int) -> Seq<Seq<(u32, u32)>>
    decreases k,
{
    if k <= 0 {
        Seq::empty()
    } else {
        let before = face_locations_upto(v, x, y, k - 1);
        match face_location(v, x, y, k - 1) {
            Some(f) => before.push(f),
            None => before,
        }
    }
}

/// The faces around `(x, y)`, each by the lattice coordinates of its corners.
pub open spec fn face_locations(v: MeshView, x: u32, y: u32) -> Seq<Seq<(u32, u32)>> {
    face_locations_upto(v, x, y, 6)
}

/// The triangle whose corners are stored at the three coordinates of `f`.
pub open spec fn triangle_at(v: MeshView, f: Seq<(u32, u32)>) -> Triangle {
    Triangle(
        v.rows[f[0].1 as int][f[0].0 as int],
        v.rows[f[1].1 as int][f[1].0 as int],
        v.rows[f[2].1 as int][f[2].0 as int],
    )
}

/// The faces around `(x, y)`, each by the positions of its corners. A vertex that is
/// not stored has no faces.
pub open spec fn faces(v: MeshView, x: u32, y: u32) -> Seq<Triangle> {
    if in_buffer(v, x as int, y as int) {
        face_locations(v, x, y).map_values(|f: Seq<(u32, u32)>| triangle_at(v, f))
    } else {
        Seq::empty()
    }
}

fn direction_pair_at(k: usize) -> (r: (RelVertPos, RelVertPos))
    requires
        k < 6,
    ensures
        r == direction_pair(k as int),
{
    if k == 0 {
        (RelVertPos::UpLeft, RelVertPos::UpRight)
    } else if k == 1 {
        (RelVertPos::UpRight, RelVertPos::Right)
    } else if k == 2 {
        (RelVertPos::Right, RelVertPos::DownRight)
    } else if k == 3 {
        (RelVertPos::DownRight, RelVertPos::DownLeft)
    } else if k == 4 {
        (RelVertPos::DownLeft, RelVertPos::Left)
    } else {
        (RelVertPos::Left, RelVertPos::UpLeft)
    }
}

/// Every face among the first `k` around `(x, y)` has three corners, the first of them
/// `(x, y)` and the other two stored.
pub proof fn lemma_face_locations_stored(v: MeshView, x: u32, y: u32, k: int, i: int)
    requires
        well_shaped(v),
        0 <= i < face_locations_upto(v, x, y, k).len(),
    ensures
        face_locations_upto(v, x, y, k)[i].len() == 3,
        face_locations_upto(v, x, y, k)[i][0] == (x, y),
        in_buffer(
            v,
            face_locations_upto(v, x, y, k)[i][1].0 as int,
            face_locations_upto(v, x, y, k)[i][1].1 as int,
        ),
        in_buffer(
            v,
            face_locations_upto(v, x, y, k)[i][2].0 as int,
            face_locations_upto(v, x, y, k)[i][2].1 as int,
        ),
    decreases k,
{
    if k > 0 {
        let before = face_locations_upto(v, x, y, k - 1);
        if i < before.len() {
            lemma_face_locations_stored(v, x, y, k - 1, i);
        }
    }
}

/// The vertices of row `y`, each with its lattice coordinate, from left to right.
pub open spec fn row_vertices(v: MeshView, y: int) -> Seq<(u32, u32, I64x2)> {
    Seq::new(v.rows[y].len(), |x: int| (x as u32, y as u32, v.rows[y][x]))
}

/// The vertices of the first `y` rows, row by row.
pub open spec fn vertices_upto(v: MeshView, y: int) -> Seq<(u32, u32, I64x2)>
    decreases y,
{
    if y <= 0 {
        Seq::empty()
    } else {
        vertices_upto(v, y - 1) + row_vertices(v, y - 1)
    }
}

/// Every stored vertex with its lattice coordinate, row by row.
pub open spec fn all_vertices(v: MeshView) -> Seq<(u32, u32, I64x2)> {
    vertices_upto(v, v.rows.len() as int)
}

/// Where an entry of the enumeration stands: after the vertices of the rows above
/// its own, at its place in its row.
pub proof fn lemma_vertices_upto(v: MeshView, n: int, i: int)
    requires
        well_shaped(v),
        0 <= n <= v.rows.len(),
        0 <= i < vertices_upto(v, n).len(),
    ensures
        ({
            let e = vertices_upto(v, n)[i];
            &&& e.1 < n
            &&& in_buffer(v, e.0 as int, e.1 as int)
            &&& e.2 == v.rows[e.1 as int][e.0 as int]
            &&& i == vertices_upto(v, e.1 as int).len() + e.0
        }),
    decreases n,
{
    if n > 0 {
        let above = vertices_upto(v, n - 1);
        assert(v.rows[n - 1].len() == row_len(extent(v).0, n - 1));
        if i < above.len() {
            lemma_vertices_upto(v, n - 1, i);
        } else {
            let x = i - above.len();
            assert(vertices_upto(v, n)[i] == row_vertices(v, n - 1)[x]);
        }
    }
}

/// A stored vertex stands in the enumeration, after the vertices of the rows above
/// its own and at its place in its row.
pub proof fn lemma_vertex_enumerated(v: MeshView, n: int, x: int, y: int)
    requires
        well_shaped(v),
        in_buffer(v, x, y),
        y < n <= v.rows.len(),
    ensures
        vertices_upto(v, y).len() + x < vertices_upto(v, n).len(),
        vertices_upto(v, n)[vertices_upto(v, y).len() + x] == (x as u32, y as u32, v.rows[y][x]),
    decreases n,
{
    assert(v.rows[y].len() == row_len(extent(v).0, y));
    if n - 1 > y {
        lemma_vertex_enumerated(v, n - 1, x, y);
    } else {
        assert(vertices_upto(v, n)[vertices_upto(v, y).len() + x] == row_vertices(v, y)[x]);
    }
}

/// The enumeration holds every stored vertex once: each of its entries is a stored
/// vertex with its position, every stored vertex is among them, and no two entries
/// have the same lattice coordinate.
pub proof fn lemma_every_vertex_once(v: MeshView)
    requires
        well_shaped(v),
    ensures
        forall|i: int|
            0 <= i < all_vertices(v).len() ==> {
                let e = #[trigger] all_vertices(v)[i];
                in_buffer(v, e.0 as int, e.1 as int) && e.2 == v.rows[e.1 as int][e.0 as int]
            },
        forall|x: int, y: int|
            in_buffer(v, x, y) ==> all_vertices(v).contains(
                (x as u32, y as u32, #[trigger] v.rows[y][x]),
            ),
        forall|i: int, j: int|
            0 <= i < j < all_vertices(v).len() ==> (#[trigger] all_vertices(v)[i]).0
                != (#[trigger] all_vertices(v)[j]).0 || all_vertices(v)[i].1 != all_vertices(v)[j].1,
{
    let n = v.rows.len() as int;
    assert forall|i: int| 0 <= i < all_vertices(v).len() implies {
        let e = #[trigger] all_vertices(v)[i];
        in_buffer(v, e.0 as int, e.1 as int) && e.2 == v.rows[e.1 as int][e.0 as int]
    } by {
        lemma_vertices_upto(v, n, i);
    }
    assert forall|x: int, y: int| in_buffer(v, x, y) implies all_vertices(v).contains(
        (x as u32, y as u32, #[trigger] v.rows[y][x]),
    ) by {
        lemma_vertex_enumerated(v, n, x, y);
    }
    assert forall|i: int, j: int| 0 <= i < j < all_vertices(v).len() implies (
    #[trigger] all_vertices(v)[i]).0 != (#[trigger] all_vertices(v)[j]).0 || all_vertices(v)[i].1
        != all_vertices(v)[j].1 by {
        lemma_vertices_upto(v, n, i);
        lemma_vertices_upto(v, n, j);
    }
}

fn copy_row(row: &Vec<I64x2>) -> (r: Vec<I64x2>)
    ensures
        r@ == row@,
{
    let mut out: Vec<I64x2> = Vec::new();
    let mut i: usize = 0;
    while i < row.len()
        invariant
            i <= row@.len(),
            out@ == row@.take(i as int),
        decreases row@.len() - i,
    {
        out.push(row[i]);
        assert(out@ =~= row@.take(i + 1));
        i += 1;
    }
    assert(row@.take(i as int) =~= row@);
    out
}

fn rows_equal(a: &Vec<I64x2>, b: &Vec<I64x2>) -> (r: bool)
    ensures
        r == (a@ == b@),
{
    if a.len() != b.len() {
        return false;
    }
    let mut i: usize = 0;
    while i < a.len()
        invariant
            i <= a@.len(),
            a@.len() == b@.len(),
            a@.take(i as int) == b@.take(i as int),
        decreases a@.len() - i,
    {
        if a[i].x != b[i].x || a[i].y != b[i].y {
            return false;
        }
        assert(a@.take(i + 1) =~= a@.take(i as int).push(a@[i as int]));
        assert(b@.take(i + 1) =~= b@.take(i as int).push(b@[i as int]));
        i += 1;
    }
    assert(a@.take(i as int) =~= a@);
    assert(b@.take(i as int) =~= b@);
    true
}

/// A regular lattice has the shape that a mesh must have.
pub proof fn lemma_regular_mesh_well_shaped(width: u32, height: u32, size: i64)
    requires
        valid_config(width, height, size),
    ensures
        well_shaped(regular_mesh(width, height, size)),
{
    lemma_chunks_bound(width, size);
    lemma_chunks_bound(height, size);
}

/// A regular lattice covers its image: every row begins at or before the left edge of
/// the image and ends at or after its right edge, the first row lies on its upper edge
/// and the last at or after its lower edge.
pub proof fn lemma_regular_mesh_covers(width: u32, height: u32, size: i64, y: int)
    requires
        valid_config(width, height, size),
        0 <= y < regular_mesh(width, height, size).rows.len(),
    ensures
        ({
            let m = regular_mesh(width, height, size);
            let row = m.rows[y];
            &&& row.len() >= 1
            &&& row[0].x <= 0
            &&& row[row.len() - 1].x >= width * UNIT
            &&& m.rows[0][0].y == 0
            &&& m.rows[m.rows.len() - 1][0].y >= height * UNIT
        }),
{
    lemma_chunks_bound(width, size);
    lemma_chunks_bound(height, size);
    let m = regular_mesh(width, height, size);
    let columns = chunks_over(width, size);
    let rows = chunks_over(height, size);
    let last = row_len(columns, y) - 1;
    assert(0 <= columns * size && (columns + 1) * size == columns * size + size && 0 <= rows
        * size && 0 * size == 0) by (nonlinear_arith)
        requires
            0 <= columns,
            0 <= rows,
            0 < size,
    ;
    assert(m.rows[y][0] == lattice_vertex(size, 0, y));
    assert(m.rows[y][last] == lattice_vertex(size, last, y));
    assert(m.rows[0][0] == lattice_vertex(size, 0, 0));
    assert(m.rows[rows][0] == lattice_vertex(size, 0, rows));
    assert(0 <= size / 2 <= size);
    if y % 2 == 0 {
        assert(last * size == (columns + 1) * size);
    } else {
        assert(last * size == columns * size);
    }
}

/// Construction is a function of its arguments: two meshes built for the same
/// dimensions and spacing are equal.
pub proof fn lemma_construction_deterministic(
    a: Triangles,
    b: Triangles,
    width: u32,
    height: u32,
    size: i64,
)
    requires
        a@ == regular_mesh(width, height, size),
        b@ == regular_mesh(width, height, size),
    ensures
        a.eq_spec(&b),
{
}

/// Moving a vertex keeps the shape of the mesh, its neighbour relation and its pinned
/// vertices.
pub proof fn lemma_with_vertex_keeps_lattice(v: MeshView, x: int, y: int, p: I64x2)
    requires
        well_shaped(v),
        in_buffer(v, x, y),
    ensures
        well_shaped(with_vertex(v, x, y, p)),
        forall|a: int, b: int| in_buffer(with_vertex(v, x, y, p), a, b) == in_buffer(v, a, b),
        forall|a: int, b: int, pos: RelVertPos| #[trigger]
            neighbor(with_vertex(v, x, y, p), a, b, pos) == neighbor(v, a, b, pos),
        forall|a: int, b: int| is_edge(with_vertex(v, x, y, p), a, b) == is_edge(v, a, b),
{
    let w = with_vertex(v, x, y, p);
    assert(v.rows[0].len() == row_len(extent(v).0, 0));
    assert forall|r: int| 0 <= r < w.rows.len() implies (#[trigger] w.rows[r]).len() == row_len(
        extent(w).0,
        r,
    ) by {
        assert(v.rows[r].len() == row_len(extent(v).0, r));
    }
    assert forall|a: int, b: int| in_buffer(w, a, b) == in_buffer(v, a, b) by {}
    assert forall|a: int, b: int, pos: RelVertPos| #[trigger]
        neighbor(w, a, b, pos) == neighbor(v, a, b, pos) by {
        let (nx, ny) = neighbor_coord(a, b, pos);
        assert(in_buffer(w, nx, ny) == in_buffer(v, nx, ny));
    }
}

/// The mesh `v` with the vertex at `(x, y)` replaced by `p`.
pub open spec fn with_vertex(v: MeshView, x: int, y: int, p: I64x2) -> MeshView {
    MeshView { rows: v.rows.update(y, v.rows[y].update(x, p)), ..v }
}

/// Why a mesh cannot be built.
#[derive(Debug, Clone, Copy, PartialEq, Eq, Structural)]
pub enum MeshError {
    /// The spacing is not strictly positive.
    ChunkNotPositive,
    /// The spacing or the number of vertices exceeds the machine's limits.
    TooLarge,
}

/// A mesh of triangles over an image.
#[derive(Debug)]
pub struct Triangles {
    vbuf: Vec<Vec<I64x2>>,
    scale_size: (u32, u32),
    real_size: (u32, u32),
    size_of_chunk: i64,
}

impl View for Triangles {
    type V = MeshView;

    closed spec fn view(&self) -> MeshView {
        MeshView {
            rows: Seq::new(self.vbuf@.len(), |i: int| self.vbuf@[i]@),
            scale_size: self.scale_size,
            real_size: self.real_size,
            size_of_chunk: self.size_of_chunk,
        }
    }
}

impl Clone for Triangles {
    /// An independent copy of the mesh.
    fn clone(&self) -> (r: Self)
        ensures
            r@ == self@,
    {
        let mut buf: Vec<Vec<I64x2>> = Vec::new();
        let mut y: usize = 0;
        while y < self.vbuf.len()
            invariant
                y <= self.vbuf@.len(),
                buf@.len() == y,
                forall|i: int| 0 <= i < y ==> (#[trigger] buf@[i])@ == self.vbuf@[i]@,
            decreases self.vbuf@.len() - y,
        {
            buf.push(copy_row(&self.vbuf[y]));
            y += 1;
        }
        let r = Self {
            vbuf: buf,
            scale_size: self.scale_size,
            real_size: self.real_size,
            size_of_chunk: self.size_of_chunk,
        };
        assert(r@.rows =~= self@.rows);
        r
    }
}

impl PartialEq for Triangles {
    /// Two meshes are equal when they hold the same vertices and were made for the
    /// same dimensions and spacing.
    fn eq(&self, other: &Self) -> (r: bool) {
        if self.scale_size.0 != other.scale_size.0 || self.scale_size.1 != other.scale_size.1
            || self.real_size.0 != other.real_size.0 || self.real_size.1 != other.real_size.1
            || self.size_of_chunk != other.size_of_chunk || self.vbuf.len() != other.vbuf.len() {
            assert(self@.rows.len() == self.vbuf@.len() && other@.rows.len() == other.vbuf@.len());
            assert(self@.scale_size == self.scale_size && other@.scale_size == other.scale_size);
            assert(self@.real_size == self.real_size && other@.real_size == other.real_size);
            return false;
        }
        let mut y: usize = 0;
        while y < self.vbuf.len()
            invariant
                y <= self.vbuf@.len(),
                self.vbuf@.len() == other.vbuf@.len(),
                forall|i: int| 0 <= i < y ==> (#[trigger] self.vbuf@[i])@ == other.vbuf@[i]@,
            decreases self.vbuf@.len() - y,
        {
            if !rows_equal(&self.vbuf[y], &other.vbuf[y]) {
                assert(self@.rows[y as int] != other@.rows[y as int]);
                return false;
            }
            y += 1;
        }
        assert(self@.rows =~= other@.rows);
        true
    }
}

impl vstd::std_specs::cmp::PartialEqSpecImpl for Triangles {
    open spec fn obeys_eq_spec() -> bool {
        true
    }

    open spec fn eq_spec(&self, other: &Self) -> bool {
        self@ == other@
    }
}

impl Triangles {
    /// The invariant of a mesh: its buffer has the shape of its lattice.
    pub open spec fn wf(&self) -> bool {
        well_shaped(self@)
    }

    /// A regular mesh over `width` by `height` pixels with vertices `size` units apart.
    pub fn new(width: u32, height: u32, size: i64) -> (r: Self)
        requires
            valid_config(width, height, size),
        ensures
            r.wf(),
            r@ == regular_mesh(width, height, size),
    {
        let (scale_width, scale_height, buffer) = generate_regular_points(width, height, size);
        let r = Self {
            vbuf: buffer,
            scale_size: (scale_width, scale_height),
            real_size: (width, height),
            size_of_chunk: size,
        };
        assert(r@.rows =~= regular_rows(
            chunks_over(width, size),
            chunks_over(height, size),
            size,
        ));
        proof {
            lemma_regular_mesh_well_shaped(width, height, size);
        }
        r
    }

    /// A regular mesh as `new` builds it, or the reason why there is none.
    pub fn try_new(width: u32, height: u32, size: i64) -> (r: Result<Self, MeshError>)
        ensures
            valid_config(width, height, size) ==> r.is_ok() && r.unwrap().wf() && r.unwrap()@
                == regular_mesh(width, height, size),
            size <= 0 ==> r == Err::<Self, MeshError>(MeshError::ChunkNotPositive),
            size > 0 && !valid_config(width, height, size) ==> r == Err::<Self, MeshError>(
                MeshError::TooLarge,
            ),
    {
        if size <= 0 {
            return Err(MeshError::ChunkNotPositive);
        }
        if size > MAX_CHUNK {
            return Err(MeshError::TooLarge);
        }
        if !can_cover(width, size) || !can_cover(height, size) {
            return Err(MeshError::TooLarge);
        }
        Ok(Self::new(width, height, size))
    }

    /// Moves the vertex at `(x, y)` to `p`.
    pub fn set_vert(&mut self, x: u32, y: u32, p: I64x2)
        requires
            in_buffer(old(self)@, x as int, y as int),
        ensures
            final(self)@ == with_vertex(old(self)@, x as int, y as int, p),
    {
        self.vbuf[y as usize][x as usize] = p;
        assert(self@.rows =~= with_vertex(old(self)@, x as int, y as int, p).rows);
    }

    /// Moves the vertex at `(x, y)` to `p` if it is stored, and says whether it is.
    pub fn try_set_vert(&mut self, x: u32, y: u32, p: I64x2) -> (r: bool)
        ensures
            r == in_buffer(old(self)@, x as int, y as int),
            r ==> final(self)@ == with_vertex(old(self)@, x as int, y as int, p),
            !r ==> final(self)@ == old(self)@,
    {
        if self.try_get_vert(x, y).is_some() {
            self.set_vert(x, y, p);
            true
        } else {
            false
        }
    }

    /// The nominal dimensions of the lattice.
    pub fn scale_size(&self) -> (r: (u32, u32))
        ensures
            r == self@.scale_size,
    {
        self.scale_size
    }

    /// The dimensions in pixels that the mesh was made for.
    pub fn real_size(&self) -> (r: (u32, u32))
        ensures
            r == self@.real_size,
    {
        self.real_size
    }

    /// The spacing of the lattice.
    pub fn size_of_chunk(&self) -> (r: i64)
        ensures
            r == self@.size_of_chunk,
    {
        self.size_of_chunk
    }

    /// The faces around `(x, y)`, each by the positions of its corners.
    pub fn triangles_around_point(&self, x: u32, y: u32) -> (r: Vec<Triangle>)
        requires
            self.wf(),
        ensures
            r@ == faces(self@, x as u32, y as u32),
    {
        let mut out: Vec<Triangle> = Vec::new();
        if self.try_get_vert(x, y).is_none() {
            return out;
        }
        let locations = self.triangle_locations_around_point(x, y);
        let ghost spec_locations = face_locations(self@, x, y);
        let mut i: usize = 0;
        while i < locations.len()
            invariant
                i <= locations@.len(),
                self.wf(),
                in_buffer(self@, x as int, y as int),
                spec_locations == face_locations(self@, x, y),
                locations@.len() == spec_locations.len(),
                forall|j: int| 0 <= j < locations@.len() ==> (#[trigger] locations@[j])@ == spec_locations[j],
                out@ == spec_locations.take(i as int).map_values(
                    |f: Seq<(u32, u32)>| triangle_at(self@, f),
                ),
            decreases locations@.len() - i,
        {
            let p = locations[i];
            proof {
                lemma_face_locations_stored(self@, x, y, 6, i as int);
                assert(p@ == spec_locations[i as int]);
            }
            let t = Triangle(
                *self.get_vert(p[0].0, p[0].1),
                *self.get_vert(p[1].0, p[1].1),
                *self.get_vert(p[2].0, p[2].1),
            );
            out.push(t);
            proof {
                assert(spec_locations.take(i + 1) =~= spec_locations.take(i as int).push(
                    spec_locations[i as int],
                ));
                assert(out@ =~= spec_locations.take(i + 1).map_values(
                    |f: Seq<(u32, u32)>| triangle_at(self@, f),
                ));
            }
            i += 1;
        }
        proof {
            assert(spec_locations.take(i as int) =~= spec_locations);
        }
        out
    }

    /// The faces around `(x, y)`, each by the lattice coordinates of its corners: the
    /// vertex itself first, then its two neighbours.
    pub fn triangle_locations_around_point(&self, x: u32, y: u32) -> (r: Vec<[(u32, u32); 3]>)
        requires
            self.wf(),
        ensures
            r@.len() == face_locations(self@, x, y).len(),
            forall|i: int| 0 <= i < r@.len() ==> (#[trigger] r@[i])@ == face_locations(self@, x, y)[i],
    {
        let mut out: Vec<[(u32, u32); 3]> = Vec::new();
        let mut k: usize = 0;
        while k < 6
            invariant
                k <= 6,
                self.wf(),
                out@.len() == face_locations_upto(self@, x, y, k as int).len(),
                forall|i: int| 0 <= i < out@.len() ==> (#[trigger] out@[i])@ == face_locations_upto(
                    self@,
                    x,
                    y,
                    k as int,
                )[i],
            decreases 6 - k,
        {
            let pair = direction_pair_at(k);
            let a = self.pos_rel(x, y, pair.0);
            let b = self.pos_rel(x, y, pair.1);
            match (a, b) {
                (Some(b), Some(c)) => {
                    let face: [(u32, u32); 3] = [(x, y), b, c];
                    assert(face@ =~= seq![(x, y), b, c]);
                    out.push(face);
                },
                _ => {},
            }
            k += 1;
        }
        out
    }

    /// Every stored vertex with its lattice coordinate, row by row.
    pub fn into_iter_verts(self) -> (r: Vec<(u32, u32, I64x2)>)
        requires
            self.wf(),
        ensures
            r@ == all_vertices(self@),
    {
        let mut out: Vec<(u32, u32, I64x2)> = Vec::new();
        let mut y: usize = 0;
        while y < self.vbuf.len()
            invariant
                y <= self.vbuf@.len(),
                self.wf(),
                out@ == vertices_upto(self@, y as int),
            decreases self.vbuf@.len() - y,
        {
            let row = &self.vbuf[y];
            let ghost before = out@;
            let mut x: usize = 0;
            while x < row.len()
                invariant
                    x <= row@.len(),
                    y < self.vbuf@.len(),
                    self.wf(),
                    row@ == self@.rows[y as int],
                    out@ == before + row_vertices(self@, y as int).take(x as int),
                decreases row@.len() - x,
            {
                out.push((x as u32, y as u32, row[x]));
                assert(out@ =~= before + row_vertices(self@, y as int).take(x + 1));
                x += 1;
            }
            assert(row_vertices(self@, y as int).take(x as int) =~= row_vertices(self@, y as int));
            y += 1;
        }
        out
    }

    /// The neighbour of `(x, y)` in direction `pos`, or `None` where none is stored.
    pub fn pos_rel(&self, x: u32, y: u32, pos: RelVertPos) -> (r: Option<(u32, u32)>)
        requires
            self.wf(),
        ensures
            r == neighbor(self@, x as int, y as int, pos),
    {
        let ny: u32 = match pos {
            RelVertPos::UpLeft | RelVertPos::UpRight => {
                if y == 0 {
                    return None;
                }
                y - 1
            },
            RelVertPos::DownLeft | RelVertPos::DownRight => {
                if y == u32::MAX {
                    return None;
                }
                y + 1
            },
            RelVertPos::Left | RelVertPos::Right => y,
        };
        let nx: u32 = match pos {
            RelVertPos::Left => {
                if x == 0 {
                    return None;
                }
                x - 1
            },
            RelVertPos::Right => {
                if x == u32::MAX {
                    assert(!in_buffer(self@, x + 1, ny as int));
                    return None;
                }
                x + 1
            },
            RelVertPos::UpLeft | RelVertPos::DownLeft => {
                if ny % 2 == 1 {
                    if x == 0 {
                        return None;
                    }
                    x - 1
                } else {
                    x
                }
            },
            RelVertPos::UpRight | RelVertPos::DownRight => {
                if ny % 2 == 0 {
                    if x == u32::MAX {
                        assert(!in_buffer(self@, x + 1, ny as int));
                        return None;
                    }
                    x + 1
                } else {
                    x
                }
            },
        };
        match self.try_get_vert(nx, ny) {
            Some(_) => Some((nx, ny)),
            None => None,
        }
    }

    /// Whether `(x, y)` is pinned: it lies on the boundary of the nominal rectangle.
    pub fn vert_is_edge(&self, x: u32, y: u32) -> (r: bool)
        requires
            self.wf(),
        ensures
            r == is_edge(self@, x as int, y as int),
    {
        let o: u32 = if y % 2 == 1 {
            0
        } else {
            1
        };
        x == 0 || x >= self.scale_size.0 + o || y == 0 || y >= self.scale_size.1
    }

    /// The vertex at `(x, y)`, in lattice units.
    pub fn get_vert(&self, x: u32, y: u32) -> (r: &I64x2)
        requires
            in_buffer(self@, x as int, y as int),
        ensures
            *r == self@.rows[y as int][x as int],
    {
        &self.vbuf[y as usize][x as usize]
    }

    /// The vertex at `(x, y)`, or `None` where none is stored.
    pub fn try_get_vert(&self, x: u32, y: u32) -> (r: Option<&I64x2>)
        ensures
            in_buffer(self@, x as int, y as int) ==> r == Some(&self@.rows[y as int][x as int]),
            !in_buffer(self@, x as int, y as int) ==> r.is_none(),
    {
        if (y as usize) < self.vbuf.len() {
            let row = &self.vbuf[y as usize];
            if (x as usize) < row.len() {
                return Some(&row[x as usize]);
            }
        }
        None
    }
}

} // verus!
