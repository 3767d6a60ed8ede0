use colorsys::Rgb;
use render3d::maths::vec::Vec3d;
use render3d::mesh::{FaceSettings, Mesh};
use render3d::render::{collect, is_visible, luminance, render, sort_by_depth, Drawable, Sample};
use render3d::triangle::Triangle;

fn point(x: f32, y: f32, z: f32) -> Vec3d {
    Vec3d::new(x.to_bits(), y.to_bits(), z.to_bits())
}

fn item(tag: f32, depth: f32) -> Drawable {
    let p = point(tag, tag, tag);
    Drawable { tri: Triangle::new(p, p, p), depth: depth.to_bits() }
}

fn tags(items: &[Drawable]) -> Vec<f32> {
    items.iter().map(|d| f32::from_bits(d.tri.vertices.0.x)).collect()
}

fn sample(tag: f32, facing: f32, light: f32, depth: f32) -> Sample {
    let p = point(tag, tag, tag);
    Sample {
        screen: (p, p, p),
        facing: facing.to_bits(),
        light: light.to_bits(),
        depth: depth.to_bits(),
    }
}

#[test]
fn a_face_that_looks_at_the_camera_is_kept() {
    assert!(is_visible((-1.0f32).to_bits()));
    assert!(is_visible((-0.75f32).to_bits()));
    assert!(is_visible((-1.0e-30f32).to_bits()));
    assert!(is_visible(f32::NEG_INFINITY.to_bits()));
}

#[test]
fn a_face_that_looks_away_is_dropped() {
    assert!(!is_visible(1.0f32.to_bits()));
    assert!(!is_visible(0.75f32.to_bits()));
    assert!(!is_visible(f32::INFINITY.to_bits()));
}

#[test]
fn a_face_seen_edge_on_is_dropped() {
    assert!(!is_visible(0.0f32.to_bits()));
    assert!(!is_visible((-0.0f32).to_bits()));
    assert!(!is_visible(f32::NAN.to_bits()));
    assert!(!is_visible((-f32::NAN).to_bits()));
}

#[test]
fn luminance_has_a_floor_of_a_tenth() {
    assert_eq!(luminance(0.5f32.to_bits()), 0.5f32.to_bits());
    assert_eq!(luminance(1.0f32.to_bits()), 1.0f32.to_bits());
    assert_eq!(luminance(0.11f32.to_bits()), 0.11f32.to_bits());
    assert_eq!(luminance(0.1f32.to_bits()), 0.1f32.to_bits());
    assert_eq!(luminance(0.05f32.to_bits()), 0.1f32.to_bits());
    assert_eq!(luminance(0.0f32.to_bits()), 0.1f32.to_bits());
    assert_eq!(luminance((-1.0f32).to_bits()), 0.1f32.to_bits());
    assert_eq!(luminance(f32::NAN.to_bits()), 0.1f32.to_bits());
    for dot in [-2.0f32, -0.3, 0.0, 0.09, 0.1, 0.2, 0.99, 1.0, 3.0] {
        assert_eq!(luminance(dot.to_bits()), dot.max(0.1).to_bits());
    }
}

#[test]
fn the_farther_triangle_is_drawn_first() {
    let sorted = sort_by_depth(&vec![item(1.0, 2.0), item(2.0, 9.0)]);
    assert_eq!(tags(&sorted), vec![2.0, 1.0]);
    let sorted = sort_by_depth(&vec![item(2.0, 9.0), item(1.0, 2.0)]);
    assert_eq!(tags(&sorted), vec![2.0, 1.0]);
}

#[test]
fn sorting_orders_by_falling_depth() {
    let items = vec![
        item(0.0, 0.5),
        item(1.0, -3.0),
        item(2.0, 7.0),
        item(3.0, 0.0),
        item(4.0, f32::INFINITY),
        item(5.0, 1.0e-40),
        item(6.0, f32::NEG_INFINITY),
        item(7.0, 6.5),
    ];
    let sorted = sort_by_depth(&items);
    assert_eq!(tags(&sorted), vec![4.0, 2.0, 7.0, 0.0, 5.0, 3.0, 1.0, 6.0]);
    for pair in sorted.windows(2) {
        assert!(f32::from_bits(pair[0].depth) >= f32::from_bits(pair[1].depth));
    }
}

#[test]
fn sorting_keeps_the_order_of_equal_depths() {
    let items = vec![
        item(0.0, 1.0),
        item(1.0, 2.0),
        item(2.0, 1.0),
        item(3.0, 2.0),
        item(4.0, 1.0),
        item(5.0, 0.0),
        item(6.0, -0.0),
        item(7.0, 0.0),
    ];
    let sorted = sort_by_depth(&items);
    assert_eq!(tags(&sorted), vec![1.0, 3.0, 0.0, 2.0, 4.0, 5.0, 6.0, 7.0]);
}

#[test]
fn sorting_keeps_every_item_as_it_is() {
    let mut a = item(1.0, 1.0);
    a.tri.fill = Some(Rgb::new(10.0, 20.0, 30.0, None));
    a.tri.stroke = None;
    a.tri.lum = 0.25f32.to_bits();
    let b = item(2.0, 5.0);
    let sorted = sort_by_depth(&vec![a, b]);
    assert_eq!(sorted.len(), 2);
    assert_eq!(sorted[1].tri.fill, Some(Rgb::new(10.0, 20.0, 30.0, None)));
    assert_eq!(sorted[1].tri.stroke, None);
    assert_eq!(sorted[1].tri.lum, 0.25f32.to_bits());
    assert_eq!(sorted[1].depth, 1.0f32.to_bits());
    assert_eq!(sorted[0].tri.fill, Some(Rgb::new(255.0, 255.0, 255.0, None)));
    assert!(sort_by_depth(&vec![]).is_empty());
}

fn three_faces() -> Mesh {
    let mut mesh = Mesh::new();
    for i in 0..4 {
        mesh.add_vertex_force(&point(i as f32, 0.0, 0.0));
    }
    let style = mesh.add_style(&FaceSettings {
        fill: Some(Rgb::new(255.0, 255.0, 128.0, None)),
        stroke: None,
    });
    mesh.add_tri(0, 1, 2, &None);
    mesh.add_tri(1, 2, 3, &Some(style));
    mesh.add_tri(2, 3, 0, &None);
    mesh.add_tri(3, 0, 1, &Some(style));
    mesh
}

#[test]
fn collect_keeps_the_faces_that_look_at_the_camera() {
    let mesh = three_faces();
    let samples = vec![
        sample(10.0, -0.5, 0.7, 4.0),
        sample(11.0, 0.5, 0.7, 5.0),
        sample(12.0, 0.0, 0.7, 6.0),
        sample(13.0, -0.1, 0.02, 7.0),
    ];
    let items = collect(&mesh, &samples);
    assert_eq!(tags(&items), vec![10.0, 13.0]);
    assert_eq!(items[0].depth, 4.0f32.to_bits());
    assert_eq!(items[0].tri.lum, 0.7f32.to_bits());
    assert_eq!(items[0].tri.fill, Some(Rgb::new(255.0, 255.0, 255.0, None)));
    assert_eq!(items[0].tri.stroke, Some(Rgb::new(0.0, 0.0, 0.0, None)));
    assert_eq!(items[0].tri.vertices, (point(10.0, 10.0, 10.0), point(10.0, 10.0, 10.0), point(10.0, 10.0, 10.0)));
    assert_eq!(items[1].depth, 7.0f32.to_bits());
    assert_eq!(items[1].tri.lum, 0.1f32.to_bits());
    assert_eq!(items[1].tri.fill, Some(Rgb::new(255.0, 255.0, 128.0, None)));
    assert_eq!(items[1].tri.stroke, None);
    assert_eq!(items[1].tri.fill_scale(), Some(50));
    assert_eq!(items[0].tri.fill_scale(), Some(100));
}

#[test]
fn render_draws_the_deepest_face_first() {
    let mesh = three_faces();
    let samples = vec![
        sample(10.0, -0.5, 0.7, 4.0),
        sample(11.0, -0.5, 0.7, 9.0),
        sample(12.0, 0.5, 0.7, f32::NAN),
        sample(13.0, -0.1, 0.02, 4.0),
    ];
    let frame = render(&mesh, &samples);
    assert_eq!(tags(&frame), vec![11.0, 10.0, 13.0]);
    assert_eq!(frame[0].tri.fill, Some(Rgb::new(255.0, 255.0, 128.0, None)));
    assert_eq!(frame[1].tri.fill, Some(Rgb::new(255.0, 255.0, 255.0, None)));
    assert_eq!(frame[2].tri.lum, 0.1f32.to_bits());
}

#[test]
fn render_of_a_mesh_without_faces_draws_nothing() {
    let frame = render(&Mesh::new(), &vec![]);
    assert!(frame.is_empty());
}

#[test]
fn render_draws_nothing_where_every_face_looks_away() {
    let mesh = three_faces();
    let samples = vec![
        sample(10.0, 0.5, 0.7, 4.0),
        sample(11.0, 1.5, 0.7, 9.0),
        sample(12.0, 0.0, 0.7, 1.0),
        sample(13.0, f32::NAN, 0.02, 4.0),
    ];
    assert!(render(&mesh, &samples).is_empty());
}

#[test]
fn drawable_clone_is_equal() {
    let d = item(3.0, 4.0);
    let c = d.clone();
    assert_eq!(c.depth, d.depth);
    assert_eq!(c.tri.vertices, d.tri.vertices);
    assert_eq!(c.tri.fill, d.tri.fill);
}
