use trifit::triangle::{
    generate_regular_points, padded_dimension, MeshError, RelVertPos, Triangle, Triangles,
};
use trifit::vec2::I64x2;
use trifit::UNIT;

fn mesh() -> Triangles {
    Triangles::new(100, 100, 10 * UNIT)
}

#[test]
fn even_rows_hold_one_vertex_more_than_odd_rows() {
    let (w, h, rows) = generate_regular_points(100, 100, 10 * UNIT);
    assert_eq!((w, h), (10, 10));
    assert_eq!(rows.len(), 11);
    for (y, row) in rows.iter().enumerate() {
        let expected = if y % 2 == 0 { 12 } else { 11 };
        assert_eq!(row.len(), expected, "row {y}");
    }
}

#[test]
fn an_image_that_is_no_multiple_of_the_spacing_gets_one_chunk_more() {
    let (w, h, rows) = generate_regular_points(105, 105, 10 * UNIT);
    // Ten whole chunks, and eleven to cover the image.
    assert_eq!((w, h), (10, 10));
    assert_eq!(rows.len(), 12);
    for (y, row) in rows.iter().enumerate() {
        assert_eq!(row.len(), if y % 2 == 0 { 13 } else { 12 }, "row {y}");
        assert!(row[0].x <= 0);
        assert!(row[row.len() - 1].x >= 105 * UNIT);
        assert_eq!(row[0].y, y as i64 * 10 * UNIT);
    }
    assert_eq!(rows[11][11], I64x2::new(110 * UNIT, 110 * UNIT));
    assert_eq!(rows[10][12], I64x2::new(115 * UNIT, 100 * UNIT));
    // The rim of the buffer and the border of the whole chunks are pinned.
    let m = Triangles::new(105, 105, 10 * UNIT);
    assert_eq!(m.scale_size(), (10, 10));
    assert!(m.vert_is_edge(11, 11) && m.vert_is_edge(10, 5) && m.vert_is_edge(5, 10));
    assert!(!m.vert_is_edge(9, 9) && !m.vert_is_edge(10, 8));
}

#[test]
fn a_mesh_covers_its_image() {
    for (width, height, size) in [(100, 100, 10 * UNIT), (30, 30, 10 * UNIT), (37, 11, 7 * UNIT + 3), (1, 1, 50 * UNIT), (0, 0, UNIT)] {
        let (_, _, rows) = generate_regular_points(width, height, size);
        assert_eq!(rows[0][0].y, 0);
        assert!(rows[rows.len() - 1][0].y >= height as i64 * UNIT);
        // The last row is the first that reaches the lower edge.
        assert!(rows.len() == 1 || rows[rows.len() - 2][0].y < height as i64 * UNIT);
        for row in &rows {
            assert!(row[0].x <= 0);
            assert!(row[row.len() - 1].x >= width as i64 * UNIT);
        }
    }
}

#[test]
fn vertices_lie_on_the_shifted_lattice() {
    let m = mesh();
    assert_eq!(*m.get_vert(0, 0), I64x2::new(-5 * UNIT, 0));
    assert_eq!(*m.get_vert(3, 2), I64x2::new(25 * UNIT, 20 * UNIT));
    assert_eq!(*m.get_vert(3, 1), I64x2::new(30 * UNIT, 10 * UNIT));
    assert_eq!(*m.get_vert(11, 10), I64x2::new(105 * UNIT, 100 * UNIT));
}

#[test]
fn spacing_need_not_divide_the_image() {
    // 25 pixels by a spacing of 10 pixels: two whole chunks.
    let m = Triangles::new(25, 25, 10 * UNIT);
    assert_eq!(m.scale_size(), (2, 2));
    assert_eq!(m.real_size(), (25, 25));
    assert_eq!(m.size_of_chunk(), 10 * UNIT);
    // A spacing of an odd number of units: the half is rounded down.
    let odd = Triangles::new(0, 0, 3);
    assert_eq!(odd.scale_size(), (0, 0));
    assert_eq!(*odd.get_vert(0, 0), I64x2::new(-1, 0));
    assert_eq!(*odd.get_vert(1, 0), I64x2::new(2, 0));
    assert!(odd.try_get_vert(0, 1).is_none());
}

#[test]
fn construction_fails_on_a_spacing_that_is_not_positive() {
    assert_eq!(Triangles::try_new(100, 100, 0).err(), Some(MeshError::ChunkNotPositive));
    assert_eq!(Triangles::try_new(100, 100, -5).err(), Some(MeshError::ChunkNotPositive));
}

#[test]
fn construction_fails_on_a_lattice_that_is_too_large() {
    // One unit of spacing over 65536 pixels: 2^32 chunks.
    assert_eq!(Triangles::try_new(65536, 1, 1).err(), Some(MeshError::TooLarge));
    assert_eq!(Triangles::try_new(1, 1, i64::MAX).err(), Some(MeshError::TooLarge));
    assert!(Triangles::try_new(100, 100, 10 * UNIT).is_ok());
}

#[test]
fn two_meshes_built_alike_are_equal() {
    let a = Triangles::new(100, 100, 10 * UNIT);
    let b = Triangles::try_new(100, 100, 10 * UNIT).unwrap();
    assert!(a == b);
    let c = Triangles::new(100, 100, 20 * UNIT);
    assert!(a != c);
    let d = Triangles::new(100, 90, 10 * UNIT);
    assert!(a != d);
}

#[test]
fn a_moved_vertex_makes_meshes_differ() {
    let a = mesh();
    let mut b = a.clone();
    assert!(a == b);
    b.set_vert(3, 3, I64x2::new(1, 2));
    assert!(a != b);
    assert_eq!(*b.get_vert(3, 3), I64x2::new(1, 2));
    assert_eq!(*a.get_vert(3, 3), I64x2::new(30 * UNIT, 30 * UNIT));
    b.set_vert(3, 3, *a.get_vert(3, 3));
    assert!(a == b);
}

#[test]
fn checked_access_answers_outside_the_buffer() {
    let mut m = mesh();
    assert!(m.try_get_vert(11, 0).is_some());
    assert!(m.try_get_vert(12, 0).is_none());
    assert!(m.try_get_vert(11, 1).is_none());
    assert!(m.try_get_vert(0, 11).is_none());
    assert!(m.try_get_vert(0, 12).is_none());
    assert!(m.try_get_vert(u32::MAX, u32::MAX).is_none());
    assert!(!m.try_set_vert(12, 0, I64x2::zero()));
    assert!(m.try_set_vert(11, 0, I64x2::splat(7)));
    assert_eq!(m.try_get_vert(11, 0), Some(&I64x2::new(7, 7)));
}

#[test]
fn neighbours_follow_the_parity_of_the_row() {
    let m = mesh();
    // From an odd row the rows above and below are even.
    assert_eq!(m.pos_rel(3, 3, RelVertPos::UpLeft), Some((3, 2)));
    assert_eq!(m.pos_rel(3, 3, RelVertPos::UpRight), Some((4, 2)));
    assert_eq!(m.pos_rel(3, 3, RelVertPos::DownLeft), Some((3, 4)));
    assert_eq!(m.pos_rel(3, 3, RelVertPos::DownRight), Some((4, 4)));
    // From an even row they are odd.
    assert_eq!(m.pos_rel(3, 2, RelVertPos::UpLeft), Some((2, 1)));
    assert_eq!(m.pos_rel(3, 2, RelVertPos::UpRight), Some((3, 1)));
    assert_eq!(m.pos_rel(3, 2, RelVertPos::DownLeft), Some((2, 3)));
    assert_eq!(m.pos_rel(3, 2, RelVertPos::DownRight), Some((3, 3)));
    assert_eq!(m.pos_rel(3, 2, RelVertPos::Left), Some((2, 2)));
    assert_eq!(m.pos_rel(3, 2, RelVertPos::Right), Some((4, 2)));
}

#[test]
fn neighbours_are_nearest_in_pixel_space() {
    let m = mesh();
    for (x, y) in [(3u32, 3u32), (3, 2), (8, 7), (1, 8)] {
        let p = *m.get_vert(x, y);
        for (dir, dx, dy) in [
            (RelVertPos::UpLeft, -5, -10),
            (RelVertPos::UpRight, 5, -10),
            (RelVertPos::Right, 10, 0),
            (RelVertPos::DownRight, 5, 10),
            (RelVertPos::DownLeft, -5, 10),
            (RelVertPos::Left, -10, 0),
        ] {
            let (nx, ny) = m.pos_rel(x, y, dir).unwrap();
            let q = *m.get_vert(nx, ny);
            assert_eq!((q.x - p.x, q.y - p.y), (dx * UNIT, dy * UNIT), "{x} {y} {dir:?}");
        }
    }
}

#[test]
fn neighbours_are_absent_outside_the_buffer() {
    let m = mesh();
    assert_eq!(m.pos_rel(0, 0, RelVertPos::Left), None);
    assert_eq!(m.pos_rel(0, 0, RelVertPos::UpLeft), None);
    assert_eq!(m.pos_rel(0, 0, RelVertPos::UpRight), None);
    assert_eq!(m.pos_rel(11, 0, RelVertPos::Right), None);
    assert_eq!(m.pos_rel(0, 2, RelVertPos::DownLeft), None);
    assert_eq!(m.pos_rel(11, 10, RelVertPos::DownRight), None);
    assert_eq!(m.pos_rel(11, 10, RelVertPos::UpRight), None);
    assert_eq!(m.pos_rel(u32::MAX, 3, RelVertPos::Right), None);
    assert_eq!(m.pos_rel(3, u32::MAX, RelVertPos::DownLeft), None);
}

#[test]
fn stepping_back_returns_to_the_vertex() {
    let m = mesh();
    let pairs = [
        (RelVertPos::UpRight, RelVertPos::DownLeft),
        (RelVertPos::Right, RelVertPos::Left),
        (RelVertPos::DownRight, RelVertPos::UpLeft),
        (RelVertPos::DownLeft, RelVertPos::UpRight),
        (RelVertPos::Left, RelVertPos::Right),
        (RelVertPos::UpLeft, RelVertPos::DownRight),
    ];
    for (x, y, _) in m.clone().into_iter_verts() {
        for (there, back) in pairs {
            if let Some((nx, ny)) = m.pos_rel(x, y, there) {
                assert_eq!(m.pos_rel(nx, ny, back), Some((x, y)));
            }
        }
    }
}

#[test]
fn the_rim_is_pinned_and_the_inside_is_not() {
    let m = mesh();
    assert!(m.vert_is_edge(0, 5));
    assert!(m.vert_is_edge(5, 0));
    assert!(m.vert_is_edge(5, 10));
    assert!(m.vert_is_edge(5, 11));
    // The additional column of even rows.
    assert!(!m.vert_is_edge(10, 2));
    assert!(m.vert_is_edge(11, 2));
    assert!(!m.vert_is_edge(9, 3));
    assert!(m.vert_is_edge(10, 3));
    assert!(!m.vert_is_edge(1, 1));
    assert!(!m.vert_is_edge(5, 9));
}

#[test]
fn every_vertex_with_a_missing_neighbour_is_pinned() {
    let m = mesh();
    let all = [
        RelVertPos::UpRight,
        RelVertPos::Right,
        RelVertPos::DownRight,
        RelVertPos::DownLeft,
        RelVertPos::Left,
        RelVertPos::UpLeft,
    ];
    for (x, y, _) in m.clone().into_iter_verts() {
        let complete = all.iter().all(|d| m.pos_rel(x, y, *d).is_some());
        if !complete {
            assert!(m.vert_is_edge(x, y), "{x} {y}");
        }
        if !m.vert_is_edge(x, y) {
            assert_eq!(m.triangles_around_point(x, y).len(), 6);
        }
    }
}

#[test]
fn faces_come_in_the_order_of_the_direction_pairs() {
    let m = mesh();
    let locations = m.triangle_locations_around_point(3, 3);
    assert_eq!(
        locations,
        vec![
            [(3, 3), (3, 2), (4, 2)],
            [(3, 3), (4, 2), (4, 3)],
            [(3, 3), (4, 3), (4, 4)],
            [(3, 3), (4, 4), (3, 4)],
            [(3, 3), (3, 4), (2, 3)],
            [(3, 3), (2, 3), (3, 2)],
        ]
    );
    let faces = m.triangles_around_point(3, 3);
    assert_eq!(
        faces[0],
        Triangle(
            I64x2::new(30 * UNIT, 30 * UNIT),
            I64x2::new(25 * UNIT, 20 * UNIT),
            I64x2::new(35 * UNIT, 20 * UNIT)
        )
    );
}

#[test]
fn corners_have_fewer_faces() {
    let m = mesh();
    // The top left corner has a right and a lower right neighbour only.
    assert_eq!(m.triangle_locations_around_point(0, 0), vec![[(0, 0), (1, 0), (0, 1)]]);
    assert_eq!(m.triangles_around_point(0, 0).len(), 1);
    // A coordinate that is not stored has no faces.
    assert!(m.triangles_around_point(40, 40).is_empty());
    assert!(m.triangles_around_point(12, 0).is_empty());
}

#[test]
fn every_vertex_is_enumerated_once() {
    let m = mesh();
    let verts = m.clone().into_iter_verts();
    assert_eq!(verts.len(), 6 * 12 + 5 * 11);
    assert_eq!(verts[0], (0, 0, I64x2::new(-5 * UNIT, 0)));
    assert_eq!(verts[12], (0, 1, I64x2::new(0, 10 * UNIT)));
    let mut seen = std::collections::HashSet::new();
    for (x, y, p) in verts {
        assert!(seen.insert((x, y)));
        assert_eq!(m.try_get_vert(x, y), Some(&p));
    }
}

#[test]
fn a_triangle_is_moved_corner_by_corner() {
    let t = Triangle(I64x2::new(0, 0), I64x2::new(10, 0), I64x2::new(5, 8));
    assert_eq!(
        t.offset(40, -3),
        Triangle(I64x2::new(40, -3), I64x2::new(50, -3), I64x2::new(45, 5))
    );
}

#[test]
fn vectors_add_within_range_only() {
    assert_eq!(I64x2::new(1, 2).checked_add(I64x2::new(3, -5)), Some(I64x2::new(4, -3)));
    assert_eq!(I64x2::new(i64::MAX, 0).checked_add(I64x2::new(1, 0)), None);
    assert_eq!(I64x2::new(0, i64::MIN).checked_add(I64x2::new(0, -1)), None);
}

#[test]
fn the_image_is_padded_by_the_rest_of_a_chunk() {
    assert_eq!(padded_dimension(100, 10 * UNIT), 110);
    assert_eq!(padded_dimension(103, 10 * UNIT), 110);
    // A spacing of 10.5 pixels counts as 11 whole pixels: 100 leaves 1, and 9.5 is cut to 9.
    assert_eq!(padded_dimension(100, 10 * UNIT + UNIT / 2), 109);
    // Where the remainder exceeds the spacing nothing is added.
    assert_eq!(padded_dimension(21, 10 * UNIT + UNIT / 2), 21);
}
