//! The indexed mesh: vertices, triangular faces over them, and a palette of
//! face styles.

pub mod shape;
pub mod obj;

use vstd::prelude::*;
use colorsys::Rgb;
use crate::color;
use crate::maths::scalar;
use crate::maths::vec::Vec3d;
use crate::triangle::Triangle;

verus! {

/// A face: three vertex indices in clockwise order, and the index of its
/// style, if it has one.
pub type Face = (usize, usize, usize, Option<usize>);

/// How a face is drawn. An absent colour means that this aspect is not drawn.
#[derive(Debug)]
pub struct FaceSettings {
    pub fill: Option<Rgb>,
    pub stroke: Option<Rgb>,
}

impl Clone for FaceSettings {
    fn clone(&self) -> (copy: Self)
        ensures
            copy == *self,
    {
        FaceSettings { fill: color::copy_of(&self.fill), stroke: color::copy_of(&self.stroke) }
    }
}

/// A soup of triangles over a shared list of vertices.
pub struct Mesh {
    vertices: Vec<Vec3d>,
    faces: Vec<Face>,
    settings: Vec<FaceSettings>,
    /// The fill of the faces that have no style.
    pub default_fill: Option<Rgb>,
    /// The stroke of the faces that have no style.
    pub default_stroke: Option<Rgb>,
}

/// What a mesh holds.
pub struct MeshView {
    pub vertices: Seq<Vec3d>,
    pub faces: Seq<Face>,
    pub styles: Seq<FaceSettings>,
    pub default_fill: Option<Rgb>,
    pub default_stroke: Option<Rgb>,
}

/// The first index from `from` on at which `vertices` holds a vertex equal to
/// `v` as numbers, or the length of `vertices` if there is none.
pub open spec fn scan(vertices: Seq<Vec3d>, v: Vec3d, from: int) -> int
    decreases vertices.len() - from,
{
    if from < 0 || from >= vertices.len() {
        vertices.len() as int
    } else if vertices[from].coincides(v) {
        from
    } else {
        scan(vertices, v, from + 1)
    }
}

/// The index under which `v` is found in `vertices`, or will be once it is
/// appended.
pub open spec fn slot(vertices: Seq<Vec3d>, v: Vec3d) -> int {
    scan(vertices, v, 0)
}

/// The face moved behind `vertex_shift` vertices and `style_shift` styles. A
/// face without a style gets the style `fallback`.
pub open spec fn remap(f: Face, vertex_shift: int, style_shift: int, fallback: int) -> Face {
    (
        (f.0 + vertex_shift) as usize,
        (f.1 + vertex_shift) as usize,
        (f.2 + vertex_shift) as usize,
        match f.3 {
            Some(s) => Some((s + style_shift) as usize),
            None => Some(fallback as usize),
        },
    )
}

impl MeshView {
    /// The indices of the face point into the vertices and the styles.
    pub open spec fn valid_face(self, f: Face) -> bool {
        &&& f.0 < self.vertices.len()
        &&& f.1 < self.vertices.len()
        &&& f.2 < self.vertices.len()
        &&& f.3 matches Some(s) ==> s < self.styles.len()
    }

    /// Every face points into the vertices and the styles.
    pub open spec fn well_formed(self) -> bool {
        forall|i: int| 0 <= i < self.faces.len() ==> self.valid_face(#[trigger] self.faces[i])
    }

    /// There is a face `i`, and it can be resolved.
    pub open spec fn resolvable(self, i: int) -> bool {
        0 <= i < self.faces.len() && self.valid_face(self.faces[i])
    }

    /// Face `i` with its corners and colours looked up.
    pub open spec fn compiled(self, i: int) -> Triangle {
        let f = self.faces[i];
        Triangle {
            vertices: (
                self.vertices[f.0 as int],
                self.vertices[f.1 as int],
                self.vertices[f.2 as int],
            ),
            fill: match f.3 {
                Some(s) => self.styles[s as int].fill,
                None => self.default_fill,
            },
            stroke: match f.3 {
                Some(s) => self.styles[s as int].stroke,
                None => self.default_stroke,
            },
            lum: scalar::ONE,
        }
    }

    /// The mesh is drawn as a new mesh is: no styles, white fill, black
    /// stroke.
    pub open spec fn unstyled(self) -> bool {
        &&& self.styles.len() == 0
        &&& self.default_fill matches Some(f) && color::is_white(f)
        &&& self.default_stroke matches Some(s) && color::is_black(s)
    }

    /// The mesh with `v` appended.
    pub open spec fn pushed(self, v: Vec3d) -> MeshView {
        MeshView { vertices: self.vertices.push(v), ..self }
    }

    /// The mesh with `v` appended unless it holds an equal vertex already.
    pub open spec fn with_vertex(self, v: Vec3d) -> MeshView {
        if slot(self.vertices, v) < self.vertices.len() {
            self
        } else {
            self.pushed(v)
        }
    }

    /// The mesh with one more style.
    pub open spec fn with_style(self, style: FaceSettings) -> MeshView {
        MeshView { styles: self.styles.push(style), ..self }
    }

    /// The mesh with one more face.
    pub open spec fn with_face(self, f: Face) -> MeshView {
        MeshView { faces: self.faces.push(f), ..self }
    }

    /// The mesh with vertex `i` replaced.
    pub open spec fn with_vertex_at(self, i: int, v: Vec3d) -> MeshView {
        MeshView { vertices: self.vertices.update(i, v), ..self }
    }

    /// The mesh with the style of every face replaced by `style`.
    pub open spec fn restyled(self, style: Option<usize>) -> MeshView {
        MeshView {
            faces: Seq::new(
                self.faces.len(),
                |i: int| (self.faces[i].0, self.faces[i].1, self.faces[i].2, style),
            ),
            ..self
        }
    }

    /// The default colours as a style.
    pub open spec fn default_style(self) -> FaceSettings {
        FaceSettings { fill: self.default_fill, stroke: self.default_stroke }
    }

    /// The index of the style that the faces of `other` without one get when
    /// `other` is merged into this mesh: the one made of the default colours
    /// of `other`, which is placed behind the styles of both.
    pub open spec fn fallback(self, other: MeshView) -> int {
        (self.styles.len() + other.styles.len()) as int
    }

    /// This mesh after `other` was merged into it. A mesh without faces adds
    /// nothing. Any other adds its vertices, its styles, one more style made
    /// of its default colours, whether it has any or not, and its faces, which
    /// are moved behind what this mesh held; those without a style get the
    /// style that was made.
    pub open spec fn merged(self, other: MeshView) -> MeshView {
        if other.faces.len() == 0 {
            self
        } else {
            MeshView {
                vertices: self.vertices + other.vertices,
                faces: self.faces + Seq::new(
                    other.faces.len(),
                    |i: int|
                        remap(
                            other.faces[i],
                            self.vertices.len() as int,
                            self.styles.len() as int,
                            self.fallback(other),
                        ),
                ),
                styles: (self.styles + other.styles).push(other.default_style()),
                ..self
            }
        }
    }
}

impl View for Mesh {
    type V = MeshView;

    closed spec fn view(&self) -> MeshView {
        MeshView {
            vertices: self.vertices@,
            faces: self.faces@,
            styles: self.settings@,
            default_fill: self.default_fill,
            default_stroke: self.default_stroke,
        }
    }
}

impl Mesh {
    /// An empty mesh whose faces are filled white and outlined black.
    pub fn new() -> (mesh: Mesh)
        ensures
            mesh@.vertices == Seq::<Vec3d>::empty(),
            mesh@.faces == Seq::<Face>::empty(),
            mesh@.unstyled(),
            mesh@.well_formed(),
    {
        Mesh {
            vertices: Vec::new(),
            faces: Vec::new(),
            settings: Vec::new(),
            default_fill: Some(color::white()),
            default_stroke: Some(color::black()),
        }
    }

    /// The index of the first vertex equal to `vertex` as numbers. Where there
    /// is none, `vertex` is appended and its new index returned.
    pub fn add_vertex(&mut self, vertex: &Vec3d) -> (index: usize)
        ensures
            index == slot(old(self)@.vertices, *vertex),
            final(self)@ == old(self)@.with_vertex(*vertex),
            index < final(self)@.vertices.len(),
            old(self)@.well_formed() ==> final(self)@.well_formed(),
    {
        let mut i: usize = 0;
        while i < self.vertices.len()
            invariant
                i <= self.vertices.len(),
                *self == *old(self),
                scan(self.vertices@, *vertex, i as int) == scan(self.vertices@, *vertex, 0),
            decreases self.vertices.len() - i,
        {
            if self.vertices[i].equals(vertex) {
                return i;
            }
            i += 1;
        }
        self.add_vertex_force(vertex)
    }

    /// Appends `vertex`, whether or not the mesh holds an equal one, and
    /// returns its index.
    pub fn add_vertex_force(&mut self, vertex: &Vec3d) -> (index: usize)
        ensures
            index == old(self)@.vertices.len(),
            final(self)@ == old(self)@.pushed(*vertex),
            old(self)@.well_formed() ==> final(self)@.well_formed(),
    {
        self.vertices.push(*vertex);
        self.vertices.len() - 1
    }

    /// The fill of the faces that have no style.
    pub fn get_default_fill(&self) -> (fill: Option<Rgb>)
        ensures
            fill == self@.default_fill,
    {
        color::copy_of(&self.default_fill)
    }

    /// The stroke of the faces that have no style.
    pub fn get_default_stroke(&self) -> (stroke: Option<Rgb>)
        ensures
            stroke == self@.default_stroke,
    {
        color::copy_of(&self.default_stroke)
    }

    /// Gives the faces that have no style the fill `fill`.
    pub fn set_default_fill(&mut self, fill: Option<Rgb>)
        ensures
            final(self)@ == (MeshView { default_fill: fill, ..old(self)@ }),
            old(self)@.well_formed() ==> final(self)@.well_formed(),
    {
        self.default_fill = fill;
    }

    /// Gives the faces that have no style the stroke `stroke`.
    pub fn set_default_stroke(&mut self, stroke: Option<Rgb>)
        ensures
            final(self)@ == (MeshView { default_stroke: stroke, ..old(self)@ }),
            old(self)@.well_formed() ==> final(self)@.well_formed(),
    {
        self.default_stroke = stroke;
    }

    /// Appends a style to the palette and returns its index.
    pub fn add_style(&mut self, style: &FaceSettings) -> (index: usize)
        ensures
            index == old(self)@.styles.len(),
            final(self)@ == old(self)@.with_style(*style),
            old(self)@.well_formed() ==> final(self)@.well_formed(),
    {
        self.settings.push(style.clone());
        self.settings.len() - 1
    }

    /// Empties the palette and takes the style from every face, so that all
    /// fall back on the default colours.
    pub fn clear_styles(&mut self)
        ensures
            final(self)@ == (MeshView { styles: Seq::empty(), ..old(self)@.restyled(None) }),
            old(self)@.well_formed() ==> final(self)@.well_formed(),
    {
        self.settings.clear();
        self.set_global_style(None);
    }

    /// Gives every face the style `style`.
    pub fn set_global_style(&mut self, style: Option<usize>)
        ensures
            final(self)@ == old(self)@.restyled(style),
            old(self)@.well_formed() && (style matches Some(s) ==> s < old(self)@.styles.len())
                ==> final(self)@.well_formed(),
    {
        let mut i: usize = 0;
        while i < self.faces.len()
            invariant
                i <= self.faces.len(),
                self.faces@.len() == old(self).faces@.len(),
                self.vertices == old(self).vertices,
                self.settings == old(self).settings,
                self.default_fill == old(self).default_fill,
                self.default_stroke == old(self).default_stroke,
                forall|j: int|
                    0 <= j < i ==> #[trigger] self.faces@[j] == (
                        old(self).faces@[j].0,
                        old(self).faces@[j].1,
                        old(self).faces@[j].2,
                        style,
                    ),
                forall|j: int| i <= j < self.faces@.len() ==> self.faces@[j] == old(self).faces@[j],
            decreases self.faces.len() - i,
        {
            let f = self.faces[i];
            self.faces.set(i, (f.0, f.1, f.2, style));
            i += 1;
        }
        assert(self.faces@ =~= old(self)@.restyled(style).faces);
    }

    /// Appends the triangle `a b c`, and hands the mesh back for the next
    /// addition.
    pub fn add_tri(&mut self, a: usize, b: usize, c: usize, style: &Option<usize>) -> (mesh:
        &mut Self)
        ensures
            mesh@ == old(self)@.with_face((a, b, c, *style)),
            old(self)@.well_formed() && old(self)@.valid_face((a, b, c, *style))
                ==> mesh@.well_formed(),
            *final(self) == *final(mesh),
    {
        self.faces.push((a, b, c, *style));
        self
    }

    /// Appends the quadrilateral `a b c d` as the two triangles `a b c` and
    /// `a c d`, and hands the mesh back for the next addition.
    pub fn add_quad(
        &mut self,
        a: usize,
        b: usize,
        c: usize,
        d: usize,
        style: &Option<usize>,
    ) -> (mesh: &mut Self)
        ensures
            mesh@ == old(self)@.with_face((a, b, c, *style)).with_face((a, c, d, *style)),
            old(self)@.well_formed() && old(self)@.valid_face((a, b, c, *style))
                && old(self)@.valid_face((a, c, d, *style)) ==> mesh@.well_formed(),
            *final(self) == *final(mesh),
    {
        self.faces.push((a, b, c, *style));
        self.faces.push((a, c, d, *style));
        self
    }

    /// Vertex `i`, if there is one.
    pub fn compile_vertex(&self, i: usize) -> (vertex: Option<Vec3d>)
        ensures
            vertex == if i < self@.vertices.len() {
                Some(self@.vertices[i as int])
            } else {
                None
            },
    {
        if i < self.vertices.len() {
            Some(self.vertices[i])
        } else {
            None
        }
    }

    /// Replaces vertex `i` and tells whether there was one.
    pub fn set_vertex(&mut self, i: usize, vertex: &Vec3d) -> (done: bool)
        ensures
            done == (i < old(self)@.vertices.len()),
            final(self)@ == if done {
                old(self)@.with_vertex_at(i as int, *vertex)
            } else {
                old(self)@
            },
            old(self)@.well_formed() ==> final(self)@.well_formed(),
    {
        if i < self.vertices.len() {
            self.vertices.set(i, *vertex);
            true
        } else {
            false
        }
    }

    /// The number of vertices.
    pub fn vertex_count(&self) -> (n: usize)
        ensures
            n == self@.vertices.len(),
    {
        self.vertices.len()
    }

    /// The number of faces.
    pub fn face_count(&self) -> (n: usize)
        ensures
            n == self@.faces.len(),
    {
        self.faces.len()
    }

    /// The number of styles in the palette.
    pub fn style_count(&self) -> (n: usize)
        ensures
            n == self@.styles.len(),
    {
        self.settings.len()
    }

    /// Tells whether the mesh has no face.
    pub fn is_empty(&self) -> (empty: bool)
        ensures
            empty == (self@.faces.len() == 0),
    {
        self.faces.len() == 0
    }

    /// Face `i` as it is stored, if there is one.
    pub fn face(&self, i: usize) -> (f: Option<Face>)
        ensures
            f == if i < self@.faces.len() {
                Some(self@.faces[i as int])
            } else {
                None
            },
    {
        if i < self.faces.len() {
            Some(self.faces[i])
        } else {
            None
        }
    }

    /// Style `i` of the palette, if there is one.
    pub fn style(&self, i: usize) -> (s: Option<FaceSettings>)
        ensures
            s == if i < self@.styles.len() {
                Some(self@.styles[i as int])
            } else {
                None
            },
    {
        if i < self.settings.len() {
            Some(self.settings[i].clone())
        } else {
            None
        }
    }

    /// Tells whether the indices of `f` point into this mesh.
    pub fn is_valid_face(&self, f: &Face) -> (valid: bool)
        ensures
            valid == self@.valid_face(*f),
    {
        let n = self.vertices.len();
        f.0 < n && f.1 < n && f.2 < n && match f.3 {
            Some(s) => s < self.settings.len(),
            None => true,
        }
    }

    /// Tells whether every face points into the vertices and the styles.
    pub fn is_well_formed(&self) -> (valid: bool)
        ensures
            valid == self@.well_formed(),
    {
        let mut i: usize = 0;
        while i < self.faces.len()
            invariant
                i <= self.faces.len(),
                forall|j: int| 0 <= j < i ==> self@.valid_face(#[trigger] self.faces@[j]),
            decreases self.faces.len() - i,
        {
            let f = self.faces[i];
            if !self.is_valid_face(&f) {
                assert(!self@.valid_face(self@.faces[i as int]));
                return false;
            }
            i += 1;
        }
        true
    }

    /// Resolves face `i` into a triangle: its three vertices, and the colours
    /// of its style, or the default colours where it has no style. There is no
    /// triangle where there is no face `i`, or where one of its indices points
    /// outside the mesh.
    pub fn compile_face(&self, i: usize) -> (tri: Option<Triangle>)
        ensures
            tri.is_some() == self@.resolvable(i as int),
            tri matches Some(t) ==> t == self@.compiled(i as int),
    {
        if i >= self.faces.len() {
            return None;
        }
        let face = self.faces[i];
        if !self.is_valid_face(&face) {
            return None;
        }
        let corners = (self.vertices[face.0], self.vertices[face.1], self.vertices[face.2]);
        match face.3 {
            Some(s) => {
                let settings = &self.settings[s];
                Some(
                    Triangle {
                        vertices: corners,
                        fill: color::copy_of(&settings.fill),
                        stroke: color::copy_of(&settings.stroke),
                        lum: scalar::ONE,
                    },
                )
            },
            None => Some(
                Triangle {
                    vertices: corners,
                    fill: color::copy_of(&self.default_fill),
                    stroke: color::copy_of(&self.default_stroke),
                    lum: scalar::ONE,
                },
            ),
        }
    }

    /// Appends the vertices, styles and faces of `other`. Its faces are moved
    /// behind the vertices and styles that this mesh had. A style made of the
    /// default colours of `other` is appended too, and given to those of its
    /// faces that had no style, so that every face is drawn after the merge as
    /// it was drawn in `other`; where `other` has no default colour, that
    /// style draws nothing. A mesh without faces adds nothing. The mesh is
    /// handed back for the next change.
    pub fn merge(&mut self, other: &Mesh) -> (mesh: &mut Self)
        requires
            other@.well_formed(),
        ensures
            mesh@ == old(self)@.merged(other@),
            old(self)@.well_formed() ==> mesh@.well_formed(),
            *final(self) == *final(mesh),
    {
        if other.is_empty() {
            return self;
        }
        let vertices_start = self.vertices.len();
        let settings_start = self.settings.len();

        let mut i: usize = 0;
        while i < other.vertices.len()
            invariant
                i <= other.vertices.len(),
                self.vertices@ == old(self).vertices@ + other.vertices@.subrange(0, i as int),
                self.faces == old(self).faces,
                self.settings == old(self).settings,
                self.default_fill == old(self).default_fill,
                self.default_stroke == old(self).default_stroke,
            decreases other.vertices.len() - i,
        {
            self.vertices.push(other.vertices[i]);
            assert(self.vertices@ =~= old(self).vertices@ + other.vertices@.subrange(
                0,
                i as int + 1,
            ));
            i += 1;
        }
        assert(other.vertices@.subrange(0, other.vertices@.len() as int) =~= other.vertices@);
        let vertices_end = self.vertices.len();

        let mut i: usize = 0;
        while i < other.settings.len()
            invariant
                i <= other.settings.len(),
                self.vertices@ == old(self).vertices@ + other.vertices@,
                self.settings@ == old(self).settings@ + other.settings@.subrange(0, i as int),
                self.faces == old(self).faces,
                self.default_fill == old(self).default_fill,
                self.default_stroke == old(self).default_stroke,
            decreases other.settings.len() - i,
        {
            self.settings.push(other.settings[i].clone());
            assert(self.settings@ =~= old(self).settings@ + other.settings@.subrange(
                0,
                i as int + 1,
            ));
            i += 1;
        }
        assert(other.settings@.subrange(0, other.settings@.len() as int) =~= other.settings@);

        let style = FaceSettings {
            fill: color::copy_of(&other.default_fill),
            stroke: color::copy_of(&other.default_stroke),
        };
        self.settings.push(style);
        let default_style = self.settings.len() - 1;
        let settings_end = self.settings.len();
        assert(default_style == old(self)@.fallback(other@));
        assert(self.settings@ == old(self)@.merged(other@).styles);

        let mut i: usize = 0;
        while i < other.faces.len()
            invariant
                i <= other.faces.len(),
                other@.well_formed(),
                vertices_start == old(self).vertices@.len(),
                settings_start == old(self).settings@.len(),
                default_style == old(self)@.fallback(other@),
                self.vertices@ == old(self).vertices@ + other.vertices@,
                self.settings@ == old(self)@.merged(other@).styles,
                vertices_end == old(self).vertices@.len() + other.vertices@.len(),
                settings_end == self.settings@.len(),
                settings_end == old(self).settings@.len() + other.settings@.len() + 1,
                self.default_fill == old(self).default_fill,
                self.default_stroke == old(self).default_stroke,
                self.faces@.len() == old(self).faces@.len() + i,
                forall|j: int|
                    0 <= j < old(self).faces@.len() ==> self.faces@[j] == old(self).faces@[j],
                forall|j: int|
                    0 <= j < i ==> #[trigger] self.faces@[old(self).faces@.len() + j] == remap(
                        other.faces@[j],
                        vertices_start as int,
                        settings_start as int,
                        default_style as int,
                    ),
            decreases other.faces.len() - i,
        {
            let face = other.faces[i];
            assert(other@.valid_face(other@.faces[i as int]));
            let style = match face.3 {
                Some(s) => Some(settings_start + s),
                None => Some(default_style),
            };
            self.faces.push(
                (vertices_start + face.0, vertices_start + face.1, vertices_start + face.2, style),
            );
            i += 1;
        }
        proof {
            let target = old(self)@.merged(other@).faces;
            let kept = old(self).faces@.len() as int;
            assert(self.faces@.len() == target.len());
            assert forall|k: int| 0 <= k < target.len() implies self.faces@[k] == target[k] by {
                if k >= kept {
                    assert(self.faces@[kept + (k - kept)] == target[k]);
                }
            }
            assert(self.faces@ =~= target);
            if old(self)@.well_formed() {
                merge_keeps_well_formed(old(self)@, other@);
            }
        }
        self
    }
}

/// `slot` is the first index that holds an equal vertex, or the length where
/// none does.
pub proof fn slot_is_first_match(vertices: Seq<Vec3d>, v: Vec3d)
    ensures
        0 <= slot(vertices, v) <= vertices.len(),
        forall|j: int| 0 <= j < slot(vertices, v) ==> !(#[trigger] vertices[j]).coincides(v),
        slot(vertices, v) < vertices.len() ==> vertices[slot(vertices, v)].coincides(v),
{
    scan_is_first_match(vertices, v, 0);
}

proof fn scan_is_first_match(vertices: Seq<Vec3d>, v: Vec3d, from: int)
    requires
        0 <= from <= vertices.len(),
    ensures
        from <= scan(vertices, v, from) <= vertices.len(),
        forall|j: int|
            from <= j < scan(vertices, v, from) ==> !(#[trigger] vertices[j]).coincides(v),
        scan(vertices, v, from) < vertices.len() ==> vertices[scan(vertices, v, from)].coincides(v),
    decreases vertices.len() - from,
{
    if from < vertices.len() && !vertices[from].coincides(v) {
        scan_is_first_match(vertices, v, from + 1);
    }
}

/// The only index that holds the first equal vertex, or is the length where
/// none does, is `slot`.
pub proof fn slot_is_unique(vertices: Seq<Vec3d>, v: Vec3d, i: int)
    requires
        0 <= i <= vertices.len(),
        forall|j: int| 0 <= j < i ==> !(#[trigger] vertices[j]).coincides(v),
        i < vertices.len() ==> vertices[i].coincides(v),
    ensures
        slot(vertices, v) == i,
{
    slot_is_first_match(vertices, v);
}

/// A vertex whose components all are numbers, added a second time, is found
/// under the index that it got the first time, and the mesh stays as the first
/// addition left it.
pub proof fn add_vertex_again(m: MeshView, v: Vec3d)
    requires
        !v.has_nan(),
    ensures
        slot(m.with_vertex(v).vertices, v) == slot(m.vertices, v),
        m.with_vertex(v).with_vertex(v) == m.with_vertex(v),
{
    slot_is_first_match(m.vertices, v);
    let after = m.with_vertex(v).vertices;
    let i = slot(m.vertices, v);
    assert(v.coincides(v));
    slot_is_unique(after, v, i);
}

/// Two vertices that differ as numbers, added one after the other, get
/// different indices.
pub proof fn add_vertex_apart(m: MeshView, v: Vec3d, w: Vec3d)
    requires
        !v.coincides(w),
    ensures
        slot(m.vertices, v) != slot(m.with_vertex(v).vertices, w),
{
    slot_is_first_match(m.vertices, v);
    let after = m.with_vertex(v).vertices;
    slot_is_first_match(after, w);
    let i = slot(m.vertices, v);
    if slot(after, w) == i {
        assert(after[i].coincides(w));
        if i < m.vertices.len() {
            assert(m.vertices[i].coincides(v));
        }
    }
}

/// Merging adds the faces of the second mesh to those of the first. Where the
/// second mesh has a face, it adds all its vertices, none of which is taken
/// for one of the first, and all its styles and one more.
pub proof fn merge_adds_faces(a: MeshView, b: MeshView)
    ensures
        a.merged(b).faces.len() == a.faces.len() + b.faces.len(),
        b.faces.len() > 0 ==> a.merged(b).vertices.len() == a.vertices.len() + b.vertices.len(),
        b.faces.len() > 0 ==> a.merged(b).styles.len() == a.styles.len() + b.styles.len() + 1,
        b.faces.len() > 0 ==> a.merged(b).styles[a.fallback(b)] == b.default_style(),
{
}

/// After a merge, face `k` of the second mesh stands `a.faces.len()` places
/// further on and resolves into the very triangle that it resolved into
/// before: the same corners, the same fill, the same stroke. A face that had
/// the style `s` has the style `a.styles.len() + s`, which is the same style;
/// a face that had none has the style made of the default colours of the
/// second mesh.
pub proof fn merge_keeps_faces(a: MeshView, b: MeshView, k: int)
    requires
        b.well_formed(),
        0 <= k < b.faces.len(),
        a.merged(b).vertices.len() <= usize::MAX,
        a.merged(b).styles.len() <= usize::MAX,
    ensures
        a.merged(b).resolvable(a.faces.len() + k),
        a.merged(b).compiled(a.faces.len() + k) == b.compiled(k),
        b.faces[k].3 matches Some(s) ==> a.merged(b).faces[a.faces.len() + k].3 == Some(
            (a.styles.len() + s) as usize,
        ) && a.merged(b).styles[a.styles.len() + s] == b.styles[s as int],
        b.faces[k].3.is_none() ==> a.merged(b).faces[a.faces.len() + k].3 == Some(
            a.fallback(b) as usize,
        ),
{
    assert(b.valid_face(b.faces[k]));
}

/// Merging two well-formed meshes gives a well-formed mesh.
pub proof fn merge_keeps_well_formed(a: MeshView, b: MeshView)
    requires
        a.well_formed(),
        b.well_formed(),
        a.merged(b).vertices.len() <= usize::MAX,
        a.merged(b).styles.len() <= usize::MAX,
    ensures
        a.merged(b).well_formed(),
{
    let m = a.merged(b);
    assert forall|i: int| 0 <= i < m.faces.len() implies m.valid_face(#[trigger] m.faces[i]) by {
        if b.faces.len() != 0 {
            if i < a.faces.len() {
                assert(a.valid_face(a.faces[i]));
            } else {
                assert(b.valid_face(b.faces[i - a.faces.len()]));
            }
        }
    }
}

} // verus!
