use colorsys::Rgb;
use render3d::maths::vec::Vec3d;
use render3d::mesh::shape;
use render3d::mesh::Mesh;

fn point(x: f32, y: f32, z: f32) -> Vec3d {
    Vec3d::new(x.to_bits(), y.to_bits(), z.to_bits())
}

fn vertices(mesh: &Mesh) -> Vec<(f32, f32, f32)> {
    (0..mesh.vertex_count())
        .map(|i| {
            let v = mesh.compile_vertex(i).unwrap();
            (f32::from_bits(v.x), f32::from_bits(v.y), f32::from_bits(v.z))
        })
        .collect()
}

fn faces(mesh: &Mesh) -> Vec<(usize, usize, usize)> {
    (0..mesh.face_count())
        .map(|i| {
            let f = mesh.face(i).unwrap();
            assert_eq!(f.3, None);
            (f.0, f.1, f.2)
        })
        .collect()
}

fn assert_plain(mesh: &Mesh) {
    assert_eq!(mesh.style_count(), 0);
    assert_eq!(mesh.default_fill, Some(Rgb::new(255.0, 255.0, 255.0, None)));
    assert_eq!(mesh.default_stroke, Some(Rgb::new(0.0, 0.0, 0.0, None)));
    assert!(mesh.is_well_formed());
}

#[test]
fn square_has_its_corners_about_the_origin() {
    let mesh = shape::square(3.0f32.to_bits());
    assert_eq!(
        vertices(&mesh),
        vec![(-1.5, -1.5, 0.0), (-1.5, 1.5, 0.0), (1.5, 1.5, 0.0), (1.5, -1.5, 0.0)]
    );
    assert_eq!(faces(&mesh), vec![(0, 1, 2), (0, 2, 3)]);
    assert_plain(&mesh);
}

#[test]
fn triangle_stands_on_its_base() {
    let mesh = shape::triangle(4.0f32.to_bits(), 6.0f32.to_bits());
    assert_eq!(vertices(&mesh), vec![(-2.0, -3.0, 0.0), (0.0, 3.0, 0.0), (2.0, -3.0, 0.0)]);
    assert_eq!(faces(&mesh), vec![(0, 1, 2)]);
    assert_plain(&mesh);
}

#[test]
fn tetrahedron_has_four_corners_and_four_faces() {
    let mesh = shape::tetrahedron(&point(2.0, 4.0, 6.0));
    assert_eq!(
        vertices(&mesh),
        vec![(-1.0, -2.0, -3.0), (1.0, -2.0, 3.0), (1.0, -2.0, -3.0), (0.0, 2.0, 0.0)]
    );
    assert_eq!(faces(&mesh), vec![(0, 1, 2), (0, 3, 2), (2, 3, 1), (1, 3, 0)]);
    assert_plain(&mesh);
}

fn box_faces() -> Vec<(usize, usize, usize)> {
    vec![
        (0, 1, 2),
        (0, 2, 3),
        (3, 2, 6),
        (3, 6, 7),
        (7, 6, 5),
        (7, 5, 4),
        (4, 5, 1),
        (4, 1, 0),
        (1, 5, 6),
        (1, 6, 2),
        (4, 0, 3),
        (4, 3, 7),
    ]
}

#[test]
fn cuboid_has_eight_vertices_and_twelve_faces() {
    let mesh = shape::cuboid(&point(2.0, 4.0, 6.0));
    assert_eq!(mesh.vertex_count(), 8);
    assert_eq!(mesh.face_count(), 12);
    assert_eq!(
        vertices(&mesh),
        vec![
            (-1.0, -2.0, -3.0),
            (-1.0, 2.0, -3.0),
            (1.0, 2.0, -3.0),
            (1.0, -2.0, -3.0),
            (-1.0, -2.0, 3.0),
            (-1.0, 2.0, 3.0),
            (1.0, 2.0, 3.0),
            (1.0, -2.0, 3.0),
        ]
    );
    assert_eq!(faces(&mesh), box_faces());
    assert_plain(&mesh);
}

#[test]
fn cuboid_of_no_width_shares_its_corners() {
    let mesh = shape::cuboid(&point(0.0, 4.0, 6.0));
    assert_eq!(mesh.vertex_count(), 4);
    assert_eq!(mesh.face_count(), 12);
    let slot = [0usize, 1, 1, 0, 2, 3, 3, 2];
    let expected: Vec<(usize, usize, usize)> =
        box_faces().iter().map(|f| (slot[f.0], slot[f.1], slot[f.2])).collect();
    assert_eq!(faces(&mesh), expected);
    assert!(mesh.is_well_formed());
}

#[test]
fn cuboid_of_the_smallest_width_shares_its_corners() {
    let mesh = shape::cuboid(&point(f32::from_bits(1), 4.0, 6.0));
    assert_eq!(mesh.vertex_count(), 4);
    let mesh = shape::cuboid(&point(f32::from_bits(2), 4.0, 6.0));
    assert_eq!(mesh.vertex_count(), 8);
    assert_eq!(vertices(&mesh)[2], (f32::from_bits(1), 2.0, -3.0));
}

#[test]
fn shapes_place_their_corners_as_the_machine_halves() {
    for l in [1.0f32, 3.0, 0.1, 7.25, 1.0e-38, 1.0e-44, 3.0e38, f32::MIN_POSITIVE, f32::INFINITY] {
        let h = l / 2.0;
        let mesh = shape::square(l.to_bits());
        assert_eq!(vertices(&mesh), vec![(-h, -h, 0.0), (-h, h, 0.0), (h, h, 0.0), (h, -h, 0.0)]);
        let mesh = shape::cuboid(&point(l, l, l));
        assert_eq!(vertices(&mesh)[0], (-(l * 0.5), -(l * 0.5), -(l * 0.5)));
        let mesh = shape::triangle(l.to_bits(), (-l).to_bits());
        assert_eq!(vertices(&mesh), vec![(-h, h, 0.0), (0.0, -h, 0.0), (h, h, 0.0)]);
    }
}

#[test]
fn cuboid_of_extents_that_are_no_numbers_keeps_every_corner() {
    let mesh = shape::cuboid(&point(f32::NAN, f32::NAN, f32::NAN));
    assert_eq!(mesh.vertex_count(), 8);
    assert_eq!(faces(&mesh), box_faces());
}

#[test]
fn cube_is_the_cuboid_of_equal_extents() {
    let cube = shape::cube(5.0f32.to_bits());
    let cuboid = shape::cuboid(&point(5.0, 5.0, 5.0));
    assert_eq!(cube.vertex_count(), 8);
    assert_eq!(cube.face_count(), 12);
    assert_eq!(vertices(&cube), vertices(&cuboid));
    assert_eq!(faces(&cube), faces(&cuboid));
    assert_eq!(vertices(&cube)[6], (2.5, 2.5, 2.5));
    assert_plain(&cube);
}

#[test]
fn prism_has_six_vertices_and_eight_faces() {
    let mesh = shape::prism(&point(2.0, 4.0, 6.0));
    assert_eq!(
        vertices(&mesh),
        vec![
            (-1.0, -2.0, -3.0),
            (0.0, 2.0, -3.0),
            (1.0, -2.0, -3.0),
            (-1.0, -2.0, 3.0),
            (0.0, 2.0, 3.0),
            (1.0, -2.0, 3.0),
        ]
    );
    assert_eq!(
        faces(&mesh),
        vec![
            (0, 1, 2),
            (2, 1, 4),
            (2, 4, 5),
            (5, 4, 3),
            (3, 4, 1),
            (3, 1, 0),
            (3, 0, 2),
            (3, 2, 5),
        ]
    );
    assert_plain(&mesh);
}

#[test]
fn close_turn_cuts_the_angle_back_to_the_full_turn() {
    let full = 2.0f32 * std::f32::consts::PI;
    assert_eq!(shape::close_turn(1.0f32.to_bits()), (false, 1.0f32.to_bits()));
    assert_eq!(shape::close_turn(7.0f32.to_bits()), (true, full.to_bits()));
    assert_eq!(shape::close_turn(full.to_bits()), (true, full.to_bits()));
    assert_eq!(shape::close_turn(6.283185f32.to_bits()), (false, 6.283185f32.to_bits()));
    assert_eq!(shape::close_turn(f32::INFINITY.to_bits()), (true, full.to_bits()));
    assert_eq!(shape::close_turn((-1.0f32).to_bits()), (false, (-1.0f32).to_bits()));
    assert_eq!(shape::close_turn(0.0f32.to_bits()), (false, 0.0f32.to_bits()));
    assert_eq!(shape::close_turn(f32::NAN.to_bits()), (true, full.to_bits()));
}

#[test]
fn circle_fans_out_from_the_origin() {
    let rim = vec![
        point(-1.0, 0.0, 0.0),
        point(0.0, 1.0, 0.0),
        point(1.0, 0.0, 0.0),
        point(0.0, -1.0, 0.0),
        point(-1.0, 0.0, 0.0),
    ];
    let mesh = shape::circle(&rim);
    assert_eq!(
        vertices(&mesh),
        vec![
            (0.0, 0.0, 0.0),
            (-1.0, 0.0, 0.0),
            (0.0, 1.0, 0.0),
            (1.0, 0.0, 0.0),
            (0.0, -1.0, 0.0),
        ]
    );
    assert_eq!(faces(&mesh), vec![(0, 1, 2), (0, 2, 3), (0, 3, 4), (0, 4, 1)]);
    assert_plain(&mesh);
}

#[test]
fn circle_of_one_wedge_has_one_face() {
    let rim = vec![point(-2.0, 0.0, 0.0), point(-2.0, 0.5, 0.0)];
    let mesh = shape::circle(&rim);
    assert_eq!(mesh.vertex_count(), 3);
    assert_eq!(faces(&mesh), vec![(0, 1, 2)]);
}

#[test]
fn circle_without_a_rim_is_its_centre() {
    for rim in [vec![], vec![point(1.0, 0.0, 0.0)]] {
        let mesh = shape::circle(&rim);
        assert_eq!(vertices(&mesh), vec![(0.0, 0.0, 0.0)]);
        assert_eq!(mesh.face_count(), 0);
        assert_plain(&mesh);
    }
}

#[test]
fn circle_of_no_radius_folds_onto_its_centre() {
    let rim = vec![point(-0.0, 0.0, 0.0), point(0.0, 0.0, 0.0), point(0.0, -0.0, 0.0)];
    let mesh = shape::circle(&rim);
    assert_eq!(mesh.vertex_count(), 1);
    assert_eq!(faces(&mesh), vec![(0, 0, 0), (0, 0, 0)]);
}

#[test]
fn circle_places_a_point_that_is_no_number_each_time() {
    let rim = vec![point(-1.0, 0.0, 0.0), point(f32::NAN, 0.0, 0.0), point(1.0, 0.0, 0.0)];
    let mesh = shape::circle(&rim);
    assert_eq!(mesh.vertex_count(), 5);
    assert_eq!(faces(&mesh), vec![(0, 1, 2), (0, 3, 4)]);
}

fn ring(n: usize) -> Vec<Vec3d> {
    (0..n).map(|i| point(i as f32, 0.5, -(i as f32))).collect()
}

#[test]
fn sphere_has_two_poles_and_its_rings() {
    let points = ring(8);
    let mesh = shape::sphere(2.0f32.to_bits(), 4, 3, &points);
    assert_eq!(mesh.vertex_count(), 2 + 4 * (3 - 1));
    assert_eq!(mesh.face_count(), 2 * 4 + 2 * 4 * (3 - 2));
    let vs = vertices(&mesh);
    assert_eq!(vs[0], (0.0, 2.0, 0.0));
    assert_eq!(vs[9], (0.0, -2.0, 0.0));
    for i in 0..8 {
        assert_eq!(vs[1 + i], (i as f32, 0.5, -(i as f32)));
    }
    assert_eq!(
        faces(&mesh),
        vec![
            (0, 2, 1),
            (9, 5, 6),
            (0, 3, 2),
            (9, 6, 7),
            (0, 4, 3),
            (9, 7, 8),
            (0, 1, 4),
            (9, 8, 5),
            (1, 2, 6),
            (1, 6, 5),
            (2, 3, 7),
            (2, 7, 6),
            (3, 4, 8),
            (3, 8, 7),
            (4, 1, 5),
            (4, 5, 8),
        ]
    );
    assert_plain(&mesh);
}

fn ring_walk(n_slices: usize, n_stacks: usize) -> Vec<(usize, usize, usize)> {
    let mut out = Vec::new();
    let bottom = n_slices * (n_stacks - 1) + 1;
    for i in 0..n_slices {
        out.push((0, (i + 1) % n_slices + 1, i + 1));
        let base = n_slices * (n_stacks - 2) + 1;
        out.push((bottom, i + base, (i + 1) % n_slices + base));
    }
    for j in 0..(n_stacks - 2) {
        let upper = j * n_slices + 1;
        let lower = (j + 1) * n_slices + 1;
        for i in 0..n_slices {
            let next = (i + 1) % n_slices;
            out.push((upper + i, upper + next, lower + next));
            out.push((upper + i, lower + next, lower + i));
        }
    }
    out
}

#[test]
fn sphere_counts_hold_for_many_sizes() {
    for (n_slices, n_stacks) in [(1, 2), (3, 2), (5, 4), (8, 6), (12, 9), (2, 7)] {
        let points = ring(n_slices * (n_stacks - 1));
        let mesh = shape::sphere(1.0f32.to_bits(), n_slices, n_stacks, &points);
        assert_eq!(mesh.vertex_count(), 2 + n_slices * (n_stacks - 1));
        assert_eq!(mesh.face_count(), 2 * n_slices + 2 * n_slices * (n_stacks - 2));
        assert_eq!(faces(&mesh), ring_walk(n_slices, n_stacks));
        assert!(mesh.is_well_formed());
    }
}

#[test]
fn sphere_without_slices_is_its_two_poles() {
    let mesh = shape::sphere(3.0f32.to_bits(), 0, 5, &vec![]);
    assert_eq!(vertices(&mesh), vec![(0.0, 3.0, 0.0), (0.0, -3.0, 0.0)]);
    assert_eq!(mesh.face_count(), 0);
}
