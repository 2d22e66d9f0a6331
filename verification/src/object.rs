//! What a scene is made of, as far as light transport has to know it.
//!
//! Lines, surfaces and colours are the caller's own types. Of a hit the
//! transport reads one thing, how far along the ray it lies, and it reads
//! it as an integer key. Of a ray it keeps one thing itself: whether the
//! ray runs inside a refractive solid.
use crate::image::Resolution;
use vstd::prelude::*;

verus! {

/// The key of positive infinity, the farthest a hit can lie.
pub const FARTHEST: u32 = 0x7f80_0000;

/// Whether `t` is the key of a distance in front of the ray's origin.
///
/// A distance is a single-precision number, and its key is its bit
/// pattern. The patterns from one up to that of positive infinity are the
/// positive numbers, in their own order. Zero, every negative number and
/// every not-a-number lie outside that range.
pub open spec fn is_forward(t: u32) -> bool {
    0 < t <= FARTHEST
}

/// The point where a ray meets a surface: how far along the ray it lies,
/// and what the caller recorded of the surface there.
pub struct Intersection<S> {
    t: u32,
    surface: S,
}

impl<S> Intersection<S> {
    #[verifier::type_invariant]
    spec fn in_front(&self) -> bool {
        is_forward(self.t)
    }

    /// The key of the distance along the ray.
    pub closed spec fn key(&self) -> u32 {
        self.t
    }

    /// What was recorded of the surface.
    pub closed spec fn at(&self) -> S {
        self.surface
    }

    /// A hit at the distance with key `t`, or `None` where `t` is no
    /// distance in front of the origin.
    pub fn new(t: u32, surface: S) -> (hit: Option<Intersection<S>>)
        ensures
            hit.is_some() <==> is_forward(t),
            hit matches Some(h) ==> h.key() == t && h.at() == surface,
    {
        if 0 < t && t <= FARTHEST {
            Some(Intersection { t, surface })
        } else {
            None
        }
    }

    /// The key of the distance along the ray. It is always that of a
    /// distance in front of the ray's origin.
    pub fn t(&self) -> (t: u32)
        ensures
            t == self.key(),
            is_forward(t),
    {
        proof {
            use_type_invariant(self);
        }
        self.t
    }

    /// What was recorded of the surface at the hit.
    pub fn surface(&self) -> (surface: &S)
        ensures
            *surface == self.at(),
    {
        &self.surface
    }
}

/// The roots of the quadratic that a ray and a sphere give, each by the
/// key of its value, the larger root first.
pub enum Solution {
    TwoRoots { t1: u32, t2: u32 },
    OneRoot { t: u32 },
    NoRoots,
}

impl Solution {
    /// The root at which the ray meets the sphere.
    ///
    /// A ray that only touches the sphere passes it. With two roots, the
    /// sphere lies behind the ray where even the larger one is not in
    /// front of the origin. Otherwise the ray enters at the smaller root
    /// if that lies in front, and else starts inside and leaves at the
    /// larger.
    pub open spec fn meeting(self) -> Option<u32> {
        match self {
            Solution::TwoRoots { t1, t2 } => if !is_forward(t1) {
                None
            } else if is_forward(t2) {
                Some(t2)
            } else {
                Some(t1)
            },
            Solution::OneRoot { t } => None,
            Solution::NoRoots => None,
        }
    }

    /// The key of the distance at which the ray meets the sphere, if it
    /// does.
    pub fn hit(&self) -> (t: Option<u32>)
        ensures
            t == self.meeting(),
            t matches Some(key) ==> is_forward(key),
    {
        match self {
            Solution::TwoRoots { t1, t2 } => {
                if !(0 < *t1 && *t1 <= FARTHEST) {
                    None
                } else if 0 < *t2 && *t2 <= FARTHEST {
                    Some(*t2)
                } else {
                    Some(*t1)
                }
            },
            Solution::OneRoot { .. } => None,
            Solution::NoRoots => None,
        }
    }
}

/// A ray: a line through the scene, and whether it runs inside a
/// refractive solid.
pub struct Ray<L> {
    pub line: L,
    pub inside: bool,
}

impl<L> Ray<L> {
    /// A ray from the camera. It starts outside every solid.
    pub fn primary(line: L) -> (ray: Ray<L>)
        ensures
            ray.line == line,
            !ray.inside,
    {
        Ray { line, inside: false }
    }
}

/// What becomes of light at a hit.
pub enum ScatteredRay<C, L> {
    /// The path ends here with this much light.
    Absorbed { color: C },
    /// The path goes on along `ray` on the side of the surface that it
    /// came from, and what comes back along it counts with the weight
    /// `attenuation`.
    Scattered { attenuation: C, ray: L },
    /// The path goes on along `ray` through the surface of a refractive
    /// solid, and what comes back along it counts with the weight
    /// `attenuation`.
    Refracted { attenuation: C, ray: L },
}

/// The arithmetic that transport needs of a colour.
pub trait Radiance: Copy {
    /// No light.
    fn black() -> Self;

    /// The sum of two colours, channel by channel.
    fn plus(self, other: Self) -> Self;

    /// The product of two colours, channel by channel.
    fn times(self, other: Self) -> Self;

    /// The colour divided by a number of samples.
    fn over(self, count: u32) -> Self;

    /// The colour itself, or black where one of its channels is no number.
    fn fix(self) -> Self;
}

/// A line that can be looked up in a panorama.
pub trait Direction {
    /// The column and row at which the line's direction falls on a
    /// panorama of the given resolution.
    fn texel(&self, resolution: &Resolution) -> (usize, usize);
}

/// A shape that rays can hit.
pub trait Intersect {
    type Line;

    type Surface;

    /// The nearest point in front of the ray's origin where the ray meets
    /// the shape, if there is one.
    fn intersect(&self, ray: &Ray<Self::Line>) -> Option<Intersection<Self::Surface>>;
}

/// A surface that answers incoming light.
pub trait Shade<L, S> {
    type Color;

    /// What becomes of the light that `ray` carries to `intersection`.
    fn scatter(&self, intersection: &Intersection<S>, ray: &Ray<L>) -> Vec<
        ScatteredRay<Self::Color, L>,
    >;
}

/// A shape with a surface.
pub trait Object: Intersect + Shade<<Self as Intersect>::Line, <Self as Intersect>::Surface> {

}

} // verus!
