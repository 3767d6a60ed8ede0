//! Builders of primitive meshes.
//!
//! A shape with straight edges is built from its measures: the builder halves
//! them, places the corners about the origin and lays the faces over them. A
//! shape that lies on a circle is built from the points on it, which the host
//! places; the builder lays out the vertices and the faces.

use vstd::prelude::*;
use vstd::arithmetic::div_mod::lemma_fundamental_div_mod_converse;
use crate::maths::scalar;
use crate::maths::vec::Vec3d;
use crate::mesh::{slot, slot_is_first_match, slot_is_unique, Face, Mesh, MeshView};

verus! {

/// The vertices that a mesh holding `start` has after `points[0]` to
/// `points[n - 1]` were added to it in turn, each unless an equal vertex was
/// there already.
pub open spec fn gathered(start: Seq<Vec3d>, points: Seq<Vec3d>, n: int) -> Seq<Vec3d>
    decreases n,
{
    if n <= 0 {
        start
    } else {
        let before = gathered(start, points, n - 1);
        if slot(before, points[n - 1]) < before.len() {
            before
        } else {
            before.push(points[n - 1])
        }
    }
}

/// The index under which `points[k]` stands once it was added in its turn.
pub open spec fn slot_in(start: Seq<Vec3d>, points: Seq<Vec3d>, k: int) -> int {
    slot(gathered(start, points, k), points[k])
}

/// The point with the given coordinates.
pub open spec fn at(x: u32, y: u32, z: u32) -> Vec3d {
    Vec3d { x, y, z }
}

/// The corners of the square with half side `h`, clockwise from the lower
/// left.
pub open spec fn square_corners(h: u32) -> Seq<Vec3d> {
    seq![
        at(scalar::negated(h), scalar::negated(h), scalar::ZERO),
        at(scalar::negated(h), h, scalar::ZERO),
        at(h, h, scalar::ZERO),
        at(h, scalar::negated(h), scalar::ZERO),
    ]
}

/// The corners of the triangle with half width `hw` and half height `hh`.
pub open spec fn triangle_corners(hw: u32, hh: u32) -> Seq<Vec3d> {
    seq![
        at(scalar::negated(hw), scalar::negated(hh), scalar::ZERO),
        at(scalar::ZERO, hh, scalar::ZERO),
        at(hw, scalar::negated(hh), scalar::ZERO),
    ]
}

/// The corners of the tetrahedron with half extents `d`.
pub open spec fn tetrahedron_corners(d: Vec3d) -> Seq<Vec3d> {
    seq![
        at(scalar::negated(d.x), scalar::negated(d.y), scalar::negated(d.z)),
        at(d.x, scalar::negated(d.y), d.z),
        at(d.x, scalar::negated(d.y), scalar::negated(d.z)),
        at(scalar::ZERO, d.y, scalar::ZERO),
    ]
}

/// The faces of the tetrahedron: bottom, front, right, back left.
pub open spec fn tetrahedron_faces() -> Seq<Face> {
    seq![(0, 1, 2, None), (0, 3, 2, None), (2, 3, 1, None), (1, 3, 0, None)]
}

/// The corners of the box with half extents `h`: the four of the front, then
/// the four of the back, each clockwise from the lower left as seen from the
/// front.
pub open spec fn cuboid_corners(h: Vec3d) -> Seq<Vec3d> {
    seq![
        at(scalar::negated(h.x), scalar::negated(h.y), scalar::negated(h.z)),
        at(scalar::negated(h.x), h.y, scalar::negated(h.z)),
        at(h.x, h.y, scalar::negated(h.z)),
        at(h.x, scalar::negated(h.y), scalar::negated(h.z)),
        at(scalar::negated(h.x), scalar::negated(h.y), h.z),
        at(scalar::negated(h.x), h.y, h.z),
        at(h.x, h.y, h.z),
        at(h.x, scalar::negated(h.y), h.z),
    ]
}

/// The two triangles of the quadrilateral `a b c d`.
pub open spec fn quad(a: int, b: int, c: int, d: int) -> Seq<Face> {
    seq![(a as usize, b as usize, c as usize, None), (a as usize, c as usize, d as usize, None)]
}

/// The faces of a box whose corner `k` stands under the index `v[k]`: front,
/// right, back, left, top, bottom.
pub open spec fn cuboid_faces(v: Seq<int>) -> Seq<Face> {
    quad(v[0], v[1], v[2], v[3])
        + quad(v[3], v[2], v[6], v[7])
        + quad(v[7], v[6], v[5], v[4])
        + quad(v[4], v[5], v[1], v[0])
        + quad(v[1], v[5], v[6], v[2])
        + quad(v[4], v[0], v[3], v[7])
}

/// The corners of the prism with half extents `d`: the front triangle, then
/// the back triangle.
pub open spec fn prism_corners(d: Vec3d) -> Seq<Vec3d> {
    seq![
        at(scalar::negated(d.x), scalar::negated(d.y), scalar::negated(d.z)),
        at(scalar::ZERO, d.y, scalar::negated(d.z)),
        at(d.x, scalar::negated(d.y), scalar::negated(d.z)),
        at(scalar::negated(d.x), scalar::negated(d.y), d.z),
        at(scalar::ZERO, d.y, d.z),
        at(d.x, scalar::negated(d.y), d.z),
    ]
}

/// The faces of the prism: front, right, back, left, bottom.
pub open spec fn prism_faces() -> Seq<Face> {
    seq![(0usize, 1usize, 2usize, None::<usize>)]
        + quad(2, 1, 4, 5)
        + seq![(5usize, 4usize, 3usize, None::<usize>)]
        + quad(3, 4, 1, 0)
        + quad(3, 0, 2, 5)
}

/// A square with sides of length `l` in the plane `z = 0`, centred on the
/// origin.
pub fn square(l: u32) -> (mesh: Mesh)
    ensures
        mesh@.vertices == square_corners(scalar::halved(l)),
        mesh@.faces == quad(0, 1, 2, 3),
        mesh@.unstyled(),
        mesh@.well_formed(),
{
    let mut mesh = Mesh::new();
    let h = scalar::halve(l);
    let n = scalar::negate(h);
    let a = mesh.add_vertex_force(&Vec3d::new(n, n, scalar::ZERO));
    let b = mesh.add_vertex_force(&Vec3d::new(n, h, scalar::ZERO));
    let c = mesh.add_vertex_force(&Vec3d::new(h, h, scalar::ZERO));
    let d = mesh.add_vertex_force(&Vec3d::new(h, n, scalar::ZERO));
    mesh.add_quad(a, b, c, d, &None);
    assert(mesh@.vertices =~= square_corners(scalar::halved(l)));
    assert(mesh@.faces =~= quad(0, 1, 2, 3));
    mesh
}

/// An isosceles triangle of width `w` and height `h` in the plane `z = 0`,
/// centred on the origin.
pub fn triangle(w: u32, h: u32) -> (mesh: Mesh)
    ensures
        mesh@.vertices == triangle_corners(scalar::halved(w), scalar::halved(h)),
        mesh@.faces == seq![(0usize, 1usize, 2usize, None::<usize>)],
        mesh@.unstyled(),
        mesh@.well_formed(),
{
    let mut mesh = Mesh::new();
    let hw = scalar::halve(w);
    let hh = scalar::halve(h);
    let nw = scalar::negate(hw);
    let nh = scalar::negate(hh);
    let a = mesh.add_vertex_force(&Vec3d::new(nw, nh, scalar::ZERO));
    let b = mesh.add_vertex_force(&Vec3d::new(scalar::ZERO, hh, scalar::ZERO));
    let c = mesh.add_vertex_force(&Vec3d::new(hw, nh, scalar::ZERO));
    mesh.add_tri(a, b, c, &None);
    assert(mesh@.vertices =~= triangle_corners(scalar::halved(w), scalar::halved(h)));
    assert(mesh@.faces =~= seq![(0usize, 1usize, 2usize, None::<usize>)]);
    mesh
}

/// A tetrahedron with dimensions `dim`, centred on the origin.
pub fn tetrahedron(dim: &Vec3d) -> (mesh: Mesh)
    ensures
        mesh@.vertices == tetrahedron_corners(dim.halved()),
        mesh@.faces == tetrahedron_faces(),
        mesh@.unstyled(),
        mesh@.well_formed(),
{
    let mut mesh = Mesh::new();
    let d = dim.half();
    let nx = scalar::negate(d.x);
    let ny = scalar::negate(d.y);
    let nz = scalar::negate(d.z);
    let v0 = mesh.add_vertex_force(&Vec3d::new(nx, ny, nz));
    let v1 = mesh.add_vertex_force(&Vec3d::new(d.x, ny, d.z));
    let v2 = mesh.add_vertex_force(&Vec3d::new(d.x, ny, nz));
    let v3 = mesh.add_vertex_force(&Vec3d::new(scalar::ZERO, d.y, scalar::ZERO));
    mesh.add_tri(v0, v1, v2, &None)
        .add_tri(v0, v3, v2, &None)
        .add_tri(v2, v3, v1, &None)
        .add_tri(v1, v3, v0, &None);
    assert(mesh@.vertices =~= tetrahedron_corners(dim.halved()));
    assert(mesh@.faces =~= tetrahedron_faces());
    mesh
}

/// A cube with sides of length `l`: the box whose dimensions all are `l`.
pub fn cube(l: u32) -> (mesh: Mesh)
    ensures
        mesh@.vertices == box_vertices(at(l, l, l)),
        mesh@.faces == box_faces(at(l, l, l)),
        mesh@.unstyled(),
        mesh@.well_formed(),
{
    cuboid(&Vec3d::diag(l))
}

/// Adds `point`, which is `points[k]`, to a mesh that holds what the points
/// before it left there.
fn add_point(
    mesh: &mut Mesh,
    point: &Vec3d,
    Ghost(points): Ghost<Seq<Vec3d>>,
    Ghost(k): Ghost<int>,
) -> (index: usize)
    requires
        0 <= k < points.len(),
        points[k] == *point,
        old(mesh)@.vertices == gathered(Seq::empty(), points, k),
        old(mesh)@.faces.len() == 0,
    ensures
        final(mesh)@ == (MeshView {
            vertices: gathered(Seq::empty(), points, k + 1),
            ..old(mesh)@
        }),
        index == slot_in(Seq::empty(), points, k),
        index < final(mesh)@.vertices.len(),
        final(mesh)@.vertices.len() >= old(mesh)@.vertices.len(),
{
    mesh.add_vertex(point)
}

/// Lays the six faces of a box over the indices of its corners.
fn add_box_faces(mesh: &mut Mesh, v: &[usize; 8])
    requires
        old(mesh)@.faces.len() == 0,
        forall|k: int| 0 <= k < 8 ==> v@[k] < old(mesh)@.vertices.len(),
    ensures
        final(mesh)@ == (MeshView {
            faces: cuboid_faces(Seq::new(8, |k: int| v@[k] as int)),
            ..old(mesh)@
        }),
        final(mesh)@.well_formed(),
{
    mesh.add_quad(v[0], v[1], v[2], v[3], &None)
        .add_quad(v[3], v[2], v[6], v[7], &None)
        .add_quad(v[7], v[6], v[5], v[4], &None)
        .add_quad(v[4], v[5], v[1], v[0], &None)
        .add_quad(v[1], v[5], v[6], v[2], &None)
        .add_quad(v[4], v[0], v[3], v[7], &None);
    assert(mesh@.faces =~= cuboid_faces(Seq::new(8, |k: int| v@[k] as int)));
}

/// The vertices of the box with dimensions `dim`: its corners, each unless an
/// equal one came before it.
pub open spec fn box_vertices(dim: Vec3d) -> Seq<Vec3d> {
    gathered(Seq::empty(), cuboid_corners(dim.halved()), 8)
}

/// The faces of the box with dimensions `dim`, over the indices that its
/// corners got.
pub open spec fn box_faces(dim: Vec3d) -> Seq<Face> {
    cuboid_faces(Seq::new(8, |k: int| slot_in(Seq::empty(), cuboid_corners(dim.halved()), k)))
}

/// A box with dimensions `dim`, centred on the origin. Its eight corners are
/// added in turn, each unless an equal vertex is there already; each face is a
/// quadrilateral over the indices that its corners got, clockwise as seen
/// from outside.
pub fn cuboid(dim: &Vec3d) -> (mesh: Mesh)
    ensures
        mesh@.vertices == box_vertices(*dim),
        mesh@.faces == box_faces(*dim),
        mesh@.unstyled(),
        mesh@.well_formed(),
{
    let mut mesh = Mesh::new();
    let h = dim.half();
    let nx = scalar::negate(h.x);
    let ny = scalar::negate(h.y);
    let nz = scalar::negate(h.z);
    let ghost c = cuboid_corners(dim.halved());
    let v0 = add_point(&mut mesh, &Vec3d::new(nx, ny, nz), Ghost(c), Ghost(0));
    let v1 = add_point(&mut mesh, &Vec3d::new(nx, h.y, nz), Ghost(c), Ghost(1));
    let v2 = add_point(&mut mesh, &Vec3d::new(h.x, h.y, nz), Ghost(c), Ghost(2));
    let v3 = add_point(&mut mesh, &Vec3d::new(h.x, ny, nz), Ghost(c), Ghost(3));
    let v4 = add_point(&mut mesh, &Vec3d::new(nx, ny, h.z), Ghost(c), Ghost(4));
    let v5 = add_point(&mut mesh, &Vec3d::new(nx, h.y, h.z), Ghost(c), Ghost(5));
    let v6 = add_point(&mut mesh, &Vec3d::new(h.x, h.y, h.z), Ghost(c), Ghost(6));
    let v7 = add_point(&mut mesh, &Vec3d::new(h.x, ny, h.z), Ghost(c), Ghost(7));
    let v = [v0, v1, v2, v3, v4, v5, v6, v7];
    add_box_faces(&mut mesh, &v);
    assert(Seq::new(8, |k: int| v@[k] as int) =~= Seq::new(
        8,
        |k: int| slot_in(Seq::empty(), c, k),
    ));
    mesh
}

/// A prism with dimensions `dim`, centred on the origin: a triangle drawn out
/// along the third axis.
pub fn prism(dim: &Vec3d) -> (mesh: Mesh)
    ensures
        mesh@.vertices == prism_corners(dim.halved()),
        mesh@.faces == prism_faces(),
        mesh@.unstyled(),
        mesh@.well_formed(),
{
    let mut mesh = Mesh::new();
    let d = dim.half();
    let nx = scalar::negate(d.x);
    let ny = scalar::negate(d.y);
    let nz = scalar::negate(d.z);
    let v0 = mesh.add_vertex_force(&Vec3d::new(nx, ny, nz));
    let v1 = mesh.add_vertex_force(&Vec3d::new(scalar::ZERO, d.y, nz));
    let v2 = mesh.add_vertex_force(&Vec3d::new(d.x, ny, nz));
    let v3 = mesh.add_vertex_force(&Vec3d::new(nx, ny, d.z));
    let v4 = mesh.add_vertex_force(&Vec3d::new(scalar::ZERO, d.y, d.z));
    let v5 = mesh.add_vertex_force(&Vec3d::new(d.x, ny, d.z));
    mesh.add_tri(v0, v1, v2, &None)
        .add_quad(v2, v1, v4, v5, &None)
        .add_tri(v5, v4, v3, &None)
        .add_quad(v3, v4, v1, v0, &None)
        .add_quad(v3, v0, v2, v5, &None);
    assert(mesh@.vertices =~= prism_corners(dim.halved()));
    assert(mesh@.faces =~= prism_faces());
    mesh
}

/// The points that a fan over `rim` hands to the mesh, in order: for each
/// wedge the rim point that it starts at, then the one that it ends at.
pub open spec fn fan_points(rim: Seq<Vec3d>) -> Seq<Vec3d> {
    Seq::new((2 * (rim.len() - 1)) as nat, |i: int| rim[(i + 1) / 2])
}

/// The centre of a fan, which is its first vertex.
pub open spec fn fan_centre() -> Seq<Vec3d> {
    seq![at(scalar::ZERO, scalar::ZERO, scalar::ZERO)]
}

/// Wedge `k` of the fan over `rim`: from the centre to the indices that its
/// two rim points got.
pub open spec fn wedge(rim: Seq<Vec3d>, k: int) -> Face {
    (
        0,
        slot_in(fan_centre(), fan_points(rim), 2 * k) as usize,
        slot_in(fan_centre(), fan_points(rim), 2 * k + 1) as usize,
        None,
    )
}

/// The number of wedges of the fan over `rim`.
pub open spec fn wedges(rim: Seq<Vec3d>) -> int {
    if rim.len() == 0 {
        0
    } else {
        rim.len() - 1
    }
}

/// The angle at which the next wedge of a disc ends, and whether it is the
/// last. An angle that is not below the full turn is cut back to the full
/// turn, which closes the disc; so does an angle that is not a number.
pub fn close_turn(next: u32) -> (r: (bool, u32))
    ensures
        r.0 == !scalar::below(next, scalar::FULL_TURN),
        r.1 == if r.0 {
            scalar::FULL_TURN
        } else {
            next
        },
{
    if scalar::less_than(next, scalar::FULL_TURN) {
        (false, next)
    } else {
        (true, scalar::FULL_TURN)
    }
}

/// A disc in the plane `z = 0`: a fan of triangles from the origin over the
/// points of `rim`, one wedge for each point and its successor. The two points
/// of each wedge are added in turn, each unless an equal vertex is there
/// already.
pub fn circle(rim: &Vec<Vec3d>) -> (mesh: Mesh)
    ensures
        mesh@.vertices == gathered(fan_centre(), fan_points(rim@), 2 * wedges(rim@)),
        mesh@.faces == Seq::new(wedges(rim@) as nat, |k: int| wedge(rim@, k)),
        mesh@.unstyled(),
        mesh@.well_formed(),
{
    let mut mesh = Mesh::new();
    let o = mesh.add_vertex_force(&Vec3d::origin());
    assert(mesh@.vertices =~= fan_centre());
    let ghost points = fan_points(rim@);
    if rim.len() == 0 {
        assert(mesh@.faces =~= Seq::new(wedges(rim@) as nat, |k: int| wedge(rim@, k)));
        return mesh;
    }
    let last = rim.len() - 1;
    let mut k: usize = 0;
    while k < last
        invariant
            k <= last,
            last == wedges(rim@),
            last + 1 == rim@.len(),
            o == 0,
            points == fan_points(rim@),
            mesh@.vertices == gathered(fan_centre(), points, 2 * k),
            mesh@.vertices.len() > 0,
            mesh@.faces.len() == k,
            forall|j: int| 0 <= j < k ==> #[trigger] mesh@.faces[j] == wedge(rim@, j),
            mesh@.unstyled(),
            mesh@.well_formed(),
        decreases last - k,
    {
        assert(points[2 * k] == rim@[k as int]);
        assert(points[2 * k + 1] == rim@[k + 1]);
        let a = mesh.add_vertex(&rim[k]);
        assert(mesh@.vertices == gathered(fan_centre(), points, 2 * k + 1));
        let b = mesh.add_vertex(&rim[k + 1]);
        assert(mesh@.vertices == gathered(fan_centre(), points, 2 * k + 2));
        assert(a < mesh@.vertices.len()) by {
            slot_is_first_match(gathered(fan_centre(), points, 2 * k), points[2 * k]);
        }
        mesh.add_tri(o, a, b, &None);
        k += 1;
    }
    assert(mesh@.faces =~= Seq::new(wedges(rim@) as nat, |k: int| wedge(rim@, k)));
    mesh
}

/// The vertices of a sphere: the upper pole, the points of the rings from the
/// top ring down, the lower pole.
pub open spec fn sphere_vertices(radius: u32, ring: Seq<Vec3d>) -> Seq<Vec3d> {
    seq![at(scalar::ZERO, radius, scalar::ZERO)] + ring + seq![
        at(scalar::ZERO, scalar::negated(radius), scalar::ZERO),
    ]
}

/// Face `k` of the caps of a sphere of `n` slices and `s` stacks. Slice `i`
/// has the faces `2 * i`, from the upper pole to the first ring, and
/// `2 * i + 1`, from the lower pole to the last ring.
pub open spec fn cap_face(n: int, s: int, k: int) -> Face {
    let i = k / 2;
    let last = n * (s - 2);
    if k % 2 == 0 {
        (0, ((i + 1) % n + 1) as usize, (i + 1) as usize, None)
    } else {
        (
            (n * (s - 1) + 1) as usize,
            (i + last + 1) as usize,
            ((i + 1) % n + last + 1) as usize,
            None,
        )
    }
}

/// The quadrilateral between ring `j` and the ring below it, from slice `i`
/// to the next slice round the sphere.
pub open spec fn band_quad(n: int, j: int, i: int) -> Seq<Face> {
    quad(
        j * n + 1 + i,
        j * n + 1 + (i + 1) % n,
        (j + 1) * n + 1 + (i + 1) % n,
        (j + 1) * n + 1 + i,
    )
}

/// Face `k` of the bands of a sphere of `n` slices: the quadrilaterals ring
/// by ring and, within a ring, slice by slice, two faces each.
pub open spec fn band_face(n: int, k: int) -> Face {
    band_quad(n, (k / 2) / n, (k / 2) % n)[k % 2]
}

/// The faces of a sphere of `n` slices and `s` stacks: the caps, then the
/// bands.
pub open spec fn sphere_faces(n: int, s: int) -> Seq<Face> {
    Seq::new((2 * n) as nat, |k: int| cap_face(n, s, k)) + Seq::new(
        (2 * (n * (s - 2))) as nat,
        |k: int| band_face(n, k),
    )
}

/// Lays the two caps of a sphere over its vertices.
fn add_caps(mesh: &mut Mesh, n: usize, s: usize)
    requires
        s >= 2,
        old(mesh)@.faces.len() == 0,
        old(mesh)@.vertices.len() == n * (s - 1) + 2,
    ensures
        final(mesh)@ == (MeshView {
            faces: Seq::new((2 * n) as nat, |k: int| cap_face(n as int, s as int, k)),
            ..old(mesh)@
        }),
        final(mesh)@.well_formed(),
{
    assert(n * (s - 2) + n == n * (s - 1)) by (nonlinear_arith)
        requires
            s >= 2,
    ;
    assert(0 <= n * (s - 2)) by (nonlinear_arith)
        requires
            s >= 2,
    ;
    let count = mesh.vertex_count();
    let last: usize = n * (s - 2);
    let bottom: usize = last + n + 1;
    let mut i: usize = 0;
    while i < n
        invariant
            i <= n,
            s >= 2,
            last == n * (s - 2),
            bottom == n * (s - 1) + 1,
            last + n + 1 == bottom,
            mesh@.vertices.len() == bottom + 1,
            mesh@.faces.len() == 2 * i,
            mesh@.vertices == old(mesh)@.vertices,
            mesh@.styles == old(mesh)@.styles,
            mesh@.default_fill == old(mesh)@.default_fill,
            mesh@.default_stroke == old(mesh)@.default_stroke,
            forall|k: int|
                0 <= k < 2 * i ==> #[trigger] mesh@.faces[k] == cap_face(n as int, s as int, k),
            mesh@.well_formed(),
        decreases n - i,
    {
        let i0 = i + 1;
        let i1 = (i + 1) % n + 1;
        mesh.add_tri(0, i1, i0, &None);
        let j0 = i + last + 1;
        let j1 = (i + 1) % n + last + 1;
        mesh.add_tri(bottom, j0, j1, &None);
        i += 1;
    }
    assert(mesh@.faces =~= Seq::new((2 * n) as nat, |k: int| cap_face(n as int, s as int, k)));
}

/// Lays the bands between the rings of a sphere behind its caps.
fn add_bands(mesh: &mut Mesh, n: usize, s: usize)
    requires
        s >= 2,
        old(mesh)@.faces.len() == 2 * n,
        old(mesh)@.vertices.len() == n * (s - 1) + 2,
        old(mesh)@.well_formed(),
    ensures
        final(mesh)@ == (MeshView {
            faces: old(mesh)@.faces + Seq::new(
                (2 * (n * (s - 2))) as nat,
                |k: int| band_face(n as int, k),
            ),
            ..old(mesh)@
        }),
        final(mesh)@.well_formed(),
{
    assert(n * (s - 2) + n == n * (s - 1)) by (nonlinear_arith)
        requires
            s >= 2,
    ;
    assert(0 <= n * (s - 2)) by (nonlinear_arith)
        requires
            s >= 2,
    ;
    let ghost caps = old(mesh)@.faces;
    let count = mesh.vertex_count();
    let mut j: usize = 0;
    let mut row: usize = 0;
    while j < s - 2
        invariant
            j <= s - 2,
            s >= 2,
            row == j * n,
            row <= n * (s - 2),
            n * (s - 2) + n == n * (s - 1),
            caps == old(mesh)@.faces,
            caps.len() == 2 * n,
            count == n * (s - 1) + 2,
            mesh@.vertices.len() == n * (s - 1) + 2,
            mesh@.faces.len() == 2 * n + 2 * row,
            mesh@.vertices == old(mesh)@.vertices,
            mesh@.styles == old(mesh)@.styles,
            mesh@.default_fill == old(mesh)@.default_fill,
            mesh@.default_stroke == old(mesh)@.default_stroke,
            forall|k: int| 0 <= k < 2 * n ==> #[trigger] mesh@.faces[k] == caps[k],
            forall|k: int|
                0 <= k < 2 * row ==> #[trigger] mesh@.faces[2 * n + k] == band_face(n as int, k),
            mesh@.well_formed(),
        decreases s - 2 - j,
    {
        assert((j + 1) * n <= n * (s - 2) && (j + 1) * n == j * n + n) by (nonlinear_arith)
            requires
                j + 1 <= s - 2,
        ;
        let j0 = row + 1;
        let j1 = row + n + 1;
        let mut i: usize = 0;
        while i < n
            invariant
                i <= n,
                j < s - 2,
                row == j * n,
                row + n <= n * (s - 2),
                n * (s - 2) + n == n * (s - 1),
                j0 == row + 1,
                j1 == row + n + 1,
                caps.len() == 2 * n,
                count == n * (s - 1) + 2,
                mesh@.vertices.len() == n * (s - 1) + 2,
                mesh@.faces.len() == 2 * n + 2 * (row + i),
                mesh@.vertices == old(mesh)@.vertices,
                mesh@.styles == old(mesh)@.styles,
                mesh@.default_fill == old(mesh)@.default_fill,
                mesh@.default_stroke == old(mesh)@.default_stroke,
                forall|k: int| 0 <= k < 2 * n ==> #[trigger] mesh@.faces[k] == caps[k],
                forall|k: int|
                    0 <= k < 2 * (row + i) ==> #[trigger] mesh@.faces[2 * n + k] == band_face(
                        n as int,
                        k,
                    ),
                mesh@.well_formed(),
            decreases n - i,
        {
            let next = (i + 1) % n;
            proof {
                lemma_fundamental_div_mod_converse(row + i, n as int, j as int, i as int);
                assert(band_face(n as int, 2 * (row + i)) == band_quad(n as int, j as int, i as int)[0]);
                assert(band_face(n as int, 2 * (row + i) + 1) == band_quad(
                    n as int,
                    j as int,
                    i as int,
                )[1]);
                assert((j + 1) * n == row + n) by (nonlinear_arith)
                    requires
                        row == j * n,
                ;
            }
            mesh.add_quad(j0 + i, j0 + next, j1 + next, j1 + i, &None);
            i += 1;
        }
        row += n;
        j += 1;
    }
    assert(row == n * (s - 2)) by (nonlinear_arith)
        requires
            row == j * n,
            j == s - 2,
    ;
    proof {
        let target = caps + Seq::new((2 * (n * (s - 2))) as nat, |k: int| band_face(n as int, k));
        assert(mesh@.faces.len() == target.len());
        assert forall|k: int| 0 <= k < target.len() implies mesh@.faces[k] == target[k] by {
            if k >= 2 * n {
                assert(mesh@.faces[2 * n + (k - 2 * n)] == band_face(n as int, k - 2 * n));
            }
        }
        assert(mesh@.faces =~= target);
    }
}

/// A sphere of `n_slices` slices and `n_stacks` stacks. Its vertices are the
/// upper pole at height `radius`, the points of `ring`, which holds the rings
/// from the top one down with `n_slices` points each, and the lower pole. The
/// caps are fans from the poles to the first and the last ring; the bands
/// between two rings are quadrilaterals. With each ring running the way the
/// rim of a disc does, every face is wound as the faces of a box are.
pub fn sphere(radius: u32, n_slices: usize, n_stacks: usize, ring: &Vec<Vec3d>) -> (mesh: Mesh)
    requires
        n_stacks >= 2,
        ring@.len() == n_slices * (n_stacks - 1),
    ensures
        mesh@.vertices == sphere_vertices(radius, ring@),
        mesh@.vertices.len() == 2 + n_slices * (n_stacks - 1),
        mesh@.faces == sphere_faces(n_slices as int, n_stacks as int),
        mesh@.faces.len() == 2 * n_slices + 2 * (n_slices * (n_stacks - 2)),
        mesh@.unstyled(),
        mesh@.well_formed(),
{
    let mut mesh = Mesh::new();
    mesh.add_vertex_force(&Vec3d::new(scalar::ZERO, radius, scalar::ZERO));
    let mut t: usize = 0;
    while t < ring.len()
        invariant
            t <= ring.len(),
            mesh@.vertices == seq![at(scalar::ZERO, radius, scalar::ZERO)] + ring@.subrange(
                0,
                t as int,
            ),
            mesh@.faces.len() == 0,
            mesh@.unstyled(),
        decreases ring.len() - t,
    {
        mesh.add_vertex_force(&ring[t]);
        assert(mesh@.vertices =~= seq![at(scalar::ZERO, radius, scalar::ZERO)] + ring@.subrange(
            0,
            t + 1,
        ));
        t += 1;
    }
    mesh.add_vertex_force(&Vec3d::new(scalar::ZERO, scalar::negate(radius), scalar::ZERO));
    assert(ring@.subrange(0, ring@.len() as int) =~= ring@);
    assert(mesh@.vertices =~= sphere_vertices(radius, ring@));
    assert(0 <= n_slices * (n_stacks - 2)) by (nonlinear_arith)
        requires
            n_stacks >= 2,
    ;
    add_caps(&mut mesh, n_slices, n_stacks);
    add_bands(&mut mesh, n_slices, n_stacks);
    mesh
}

/// A sphere of `n` slices and `s` stacks has two poles and a ring of `n`
/// vertices between each two stacks: `2 + n * (s - 1)` vertices. It has two
/// fans of `n` faces and, between each two rings, `n` quadrilaterals of two
/// faces.
pub proof fn sphere_has_its_vertices(radius: u32, ring: Seq<Vec3d>, n: int, s: int)
    requires
        0 <= n,
        2 <= s,
        ring.len() == n * (s - 1),
    ensures
        sphere_vertices(radius, ring).len() == 2 + n * (s - 1),
        sphere_faces(n, s).len() == 2 * n + 2 * (n * (s - 2)),
        forall|j: int, i: int|
            0 <= j < s - 1 && 0 <= i < n ==> sphere_vertices(radius, ring)[1 + j * n + i]
                == #[trigger] ring[j * n + i],
{
    assert(0 <= n * (s - 2)) by (nonlinear_arith)
        requires
            0 <= n,
            2 <= s,
    ;
    assert forall|j: int, i: int| 0 <= j < s - 1 && 0 <= i < n implies sphere_vertices(
        radius,
        ring,
    )[1 + j * n + i] == #[trigger] ring[j * n + i] by {
        assert(0 <= j * n + i < n * (s - 1)) by (nonlinear_arith)
            requires
                0 <= j < s - 1,
                0 <= i < n,
        ;
    }
}

/// A box has eight vertices, its corners, each under its own index, and
/// twelve faces, unless half of one of its dimensions is zero.
pub proof fn cuboid_has_eight_vertices(dim: Vec3d)
    requires
        !scalar::same(scalar::halved(dim.x), scalar::ZERO),
        !scalar::same(scalar::halved(dim.y), scalar::ZERO),
        !scalar::same(scalar::halved(dim.z), scalar::ZERO),
    ensures
        box_vertices(dim) == cuboid_corners(dim.halved()),
        box_vertices(dim).len() == 8,
        forall|k: int|
            0 <= k < 8 ==> slot_in(Seq::empty(), cuboid_corners(dim.halved()), k) == k,
        box_faces(dim).len() == 12,
{
    let h = dim.halved();
    let c = cuboid_corners(h);
    let none = Seq::<Vec3d>::empty();
    assert forall|k: int| 0 <= k <= 8 implies gathered(none, c, k) == c.subrange(0, k) by {
        all_apart(c, k);
    }
    assert(c.subrange(0, 8) =~= c);
    assert forall|k: int| 0 <= k < 8 implies slot_in(none, c, k) == k by {
        all_apart(c, k);
        slot_is_unique(c.subrange(0, k), c[k], k);
    }
}

/// Points of which no two are equal as numbers are all kept, in their order.
proof fn all_apart(c: Seq<Vec3d>, k: int)
    requires
        0 <= k <= c.len(),
        forall|i: int, j: int| 0 <= i < j < c.len() ==> !c[i].coincides(c[j]),
    ensures
        gathered(Seq::empty(), c, k) == c.subrange(0, k),
    decreases k,
{
    if k > 0 {
        all_apart(c, k - 1);
        slot_is_unique(c.subrange(0, k - 1), c[k - 1], k - 1);
        assert(c.subrange(0, k - 1).push(c[k - 1]) =~= c.subrange(0, k));
    } else {
        assert(c.subrange(0, 0) =~= Seq::<Vec3d>::empty());
    }
}

} // verus!
