use trifit::pixels::{Image, Rgb};
use trifit::render::colored_faces;
use trifit::triangle::{Triangle, Triangles};
use trifit::vec2::I64x2;
use trifit::UNIT;

fn px(x: i64, y: i64) -> I64x2 {
    I64x2::new(x * UNIT, y * UNIT)
}

#[test]
fn every_face_is_painted_once() {
    let img = Image::from_pixel(20, 20, Rgb { r: 40, g: 50, b: 60 }).unwrap();
    let tris = Triangles::new(20, 20, 10 * UNIT);
    let faces = colored_faces(&tris, &img);
    // Rows of 4, 3 and 4 vertices: 5 faces between the first two rows, 5 between the
    // last two.
    assert_eq!(faces.len(), 10);
    let mut seen = std::collections::HashSet::new();
    for (_, t) in &faces {
        let mut corners = [(t.0.x, t.0.y), (t.1.x, t.1.y), (t.2.x, t.2.y)];
        corners.sort();
        assert!(seen.insert(corners));
    }
    // The vertex at the top left has no face that points down, and one to its right.
    assert_eq!(faces[0].1, Triangle(px(-5, 0), px(5, 0), px(0, 10)));
    assert_eq!(faces[1].1, Triangle(px(5, 0), px(10, 10), px(0, 10)));
    assert_eq!(faces[2].1, Triangle(px(5, 0), px(15, 0), px(10, 10)));
}

#[test]
fn a_face_is_painted_in_the_mean_colour_of_its_pixels() {
    let mut data = Vec::new();
    for _y in 0..20 {
        for x in 0..20u8 {
            data.extend_from_slice(&[x, 100, 0]);
        }
    }
    let img = Image::from_raw(20, 20, data).unwrap();
    let tris = Triangles::new(20, 20, 10 * UNIT);
    let faces = colored_faces(&tris, &img);
    assert!(faces.iter().all(|(c, _)| c.g == 100 && c.b == 0));
    // The face with the corners (15, 0), (25, 0), (20, 10) covers the columns 15 to 19.
    let right = faces
        .iter()
        .find(|(_, t)| *t == Triangle(px(15, 0), px(25, 0), px(20, 10)))
        .unwrap();
    assert!((15..20).contains(&right.0.r));
    // A face that covers no pixel is painted black.
    let beyond = Triangles::new(40, 40, 10 * UNIT);
    let faces = colored_faces(&beyond, &img);
    let outside = faces.iter().find(|(_, t)| t.0.x >= 25 * UNIT && t.1.x >= 25 * UNIT).unwrap();
    assert_eq!(outside.0, Rgb { r: 0, g: 0, b: 0 });
}
