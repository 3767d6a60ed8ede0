//! A face resolved into three points and its colours.

use vstd::prelude::*;
use colorsys::Rgb;
use crate::color;
use crate::maths::scalar;
use crate::maths::vec::Vec3d;

verus! {

/// Three points in clockwise order, with the colours to draw them in.
#[derive(Debug)]
pub struct Triangle {
    /// The corners, clockwise.
    pub vertices: (Vec3d, Vec3d, Vec3d),
    /// The colour that fills the triangle; none leaves it unfilled.
    pub fill: Option<Rgb>,
    /// The colour of the outline; none leaves it without one.
    pub stroke: Option<Rgb>,
    /// The luminance set by lighting, a single-precision pattern.
    pub lum: u32,
}

impl Clone for Triangle {
    fn clone(&self) -> (copy: Self)
        ensures
            copy == *self,
    {
        Triangle {
            vertices: (self.vertices.0, self.vertices.1, self.vertices.2),
            fill: color::copy_of(&self.fill),
            stroke: color::copy_of(&self.stroke),
            lum: self.lum,
        }
    }
}

impl Triangle {
    /// The triangle is as `new` makes it from these corners: white fill, black
    /// stroke, full luminance.
    pub open spec fn is_plain(self, a: Vec3d, b: Vec3d, c: Vec3d) -> bool {
        &&& self.vertices == (a, b, c)
        &&& self.fill matches Some(f) && color::is_white(f)
        &&& self.stroke matches Some(s) && color::is_black(s)
        &&& self.lum == scalar::ONE
    }

    /// The percentage by which luminance scales the lightness of the fill, if
    /// there is a fill.
    pub open spec fn scale(self) -> Option<u8> {
        match self.fill {
            Some(f) => Some(color::scale_of(f)),
            None => None,
        }
    }

    /// Construct a triangle with the default colours.
    pub fn new(a: Vec3d, b: Vec3d, c: Vec3d) -> (t: Triangle)
        ensures
            t.is_plain(a, b, c),
    {
        Triangle {
            vertices: (a, b, c),
            fill: Some(color::white()),
            stroke: Some(color::black()),
            lum: scalar::ONE,
        }
    }

    /// A copy of this triangle.
    pub fn copy(&self) -> (t: Triangle)
        ensures
            t == *self,
    {
        self.clone()
    }

    /// Split the quadrilateral `a b c d` along the diagonal from `a` to `c`.
    pub fn link_sq(a: &Vec3d, b: &Vec3d, c: &Vec3d, d: &Vec3d) -> (tris: Vec<Triangle>)
        ensures
            tris@.len() == 2,
            tris@[0].is_plain(*a, *b, *c),
            tris@[1].is_plain(*a, *c, *d),
    {
        let mut tris: Vec<Triangle> = Vec::new();
        tris.push(Triangle::new(*a, *b, *c));
        tris.push(Triangle::new(*a, *c, *d));
        tris
    }

    /// The stroke colour.
    pub fn get_stroke(&self) -> (stroke: Option<Rgb>)
        ensures
            stroke == self.stroke,
    {
        color::copy_of(&self.stroke)
    }

    /// The percentage by which the luminance scales the lightness of the fill:
    /// a hundred where the fill is near white, fifty for any other fill, and
    /// nothing where the triangle has no fill.
    pub fn fill_scale(&self) -> (percent: Option<u8>)
        ensures
            percent == self.scale(),
    {
        match &self.fill {
            Some(f) => Some(color::lightness_scale(f)),
            None => None,
        }
    }
}

} // verus!
