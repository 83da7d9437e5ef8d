//! A sugary affine transform description: optional rotate, translate,
//! anchor, scale and skew parts, plus a linked `previous` transform. Chained
//! transforms (assembled by multiplication) form a singly linked composition
//! list, traversed root to leaf when the final matrix is assembled.

use vstd::prelude::*;
use crate::interpolation::Interpolatable;
use crate::size::{Rotation, Size};

verus! {

/// A 2D transform description; `previous` chains earlier transforms.
pub struct Transform2D {
    /// Earlier transforms this one composes after.
    pub previous: Option<Box<Transform2D>>,
    /// Rotation over the z axis.
    pub rotate: Option<Rotation>,
    pub translate: Option<(Size, Size)>,
    pub anchor: Option<(Size, Size)>,
    pub scale: Option<(Size, Size)>,
    pub skew: Option<(Rotation, Rotation)>,
}

impl Default for Transform2D {
    fn default() -> (r: Self)
        ensures
            r.previous is None,
            r.rotate is None,
            r.translate is None,
            r.anchor is None,
            r.scale is None,
            r.skew is None,
    {
        Transform2D {
            previous: Option::None,
            rotate: Option::None,
            translate: Option::None,
            anchor: Option::None,
            scale: Option::None,
            skew: Option::None,
        }
    }
}

impl Transform2D {
    /// This transform without its chain link.
    pub open spec fn head_spec(self) -> Transform2D {
        Transform2D { previous: Option::None, ..self }
    }

    /// The composition list this transform describes, root first: the
    /// `previous` chain unrolled, each element carrying no chain link of its
    /// own.
    pub open spec fn chain_spec(self) -> Seq<Transform2D>
        decreases self,
    {
        match self.previous {
            Option::Some(p) => p.chain_spec().push(self.head_spec()),
            Option::None => seq![self.head_spec()],
        }
    }

    /// Scale coefficients over the x-y plane (a size of 100 percent is
    /// coefficient 1).
    pub fn scale(x: Size, y: Size) -> (r: Self)
        ensures
            r == (Transform2D {
                previous: Option::None,
                rotate: Option::None,
                translate: Option::None,
                anchor: Option::None,
                scale: Option::Some((x, y)),
                skew: Option::None,
            }),
    {
        let mut ret = Transform2D::default();
        ret.scale = Option::Some((x, y));
        ret
    }

    /// Rotation over the z axis.
    pub fn rotate(z: Rotation) -> (r: Self)
        ensures
            r == (Transform2D {
                previous: Option::None,
                rotate: Option::Some(z),
                translate: Option::None,
                anchor: Option::None,
                scale: Option::None,
                skew: Option::None,
            }),
    {
        let mut ret = Transform2D::default();
        ret.rotate = Option::Some(z);
        ret
    }

    /// Translation across the x-y plane.
    pub fn translate(x: Size, y: Size) -> (r: Self)
        ensures
            r == (Transform2D {
                previous: Option::None,
                rotate: Option::None,
                translate: Option::Some((x, y)),
                anchor: Option::None,
                scale: Option::None,
                skew: Option::None,
            }),
    {
        let mut ret = Transform2D::default();
        ret.translate = Option::Some((x, y));
        ret
    }

    /// Where the origin of this element sits relative to its own bounds.
    pub fn anchor(x: Size, y: Size) -> (r: Self)
        ensures
            r == (Transform2D {
                previous: Option::None,
                rotate: Option::None,
                translate: Option::None,
                anchor: Option::Some((x, y)),
                scale: Option::None,
                skew: Option::None,
            }),
    {
        let mut ret = Transform2D::default();
        ret.anchor = Option::Some((x, y));
        ret
    }

    /// Compose: the product applies `self` first, then `rhs`; the result is
    /// `rhs` with `self` chained as its previous transform (any previous
    /// chain of `rhs` itself is replaced).
    pub fn mul(self, rhs: Self) -> (r: Self)
        ensures
            (match r.previous {
                Option::Some(p) => *p == self,
                Option::None => false,
            }),
            r.rotate == rhs.rotate,
            r.translate == rhs.translate,
            r.anchor == rhs.anchor,
            r.scale == rhs.scale,
            r.skew == rhs.skew,
            r.chain_spec() == self.chain_spec().push(rhs.head_spec()),
    {
        let mut ret = rhs;
        ret.previous = Option::Some(Box::new(self));
        ret
    }

    /// This transform without its chain link.
    pub fn head(&self) -> (r: Transform2D)
        ensures
            r == self.head_spec(),
    {
        Transform2D {
            previous: Option::None,
            rotate: self.rotate,
            translate: self.translate,
            anchor: self.anchor,
            scale: self.scale,
            skew: self.skew,
        }
    }

    /// Unroll the previous-transform chain into the root-to-leaf composition
    /// list the matrix assembly walks.
    pub fn flatten(&self) -> (r: Vec<Transform2D>)
        ensures
            r@ == self.chain_spec(),
            r@.len() >= 1,
        decreases *self,
    {
        match &self.previous {
            Option::Some(p) => {
                let mut v = p.flatten();
                v.push(self.head());
                v
            },
            Option::None => {
                let mut v: Vec<Transform2D> = Vec::new();
                v.push(self.head());
                proof {
                    assert(v@ =~= seq![self.head_spec()]);
                }
                v
            },
        }
    }

    /// Exact copy of the whole chain.
    pub fn duplicate_chain(&self) -> (r: Transform2D)
        ensures
            r == *self,
        decreases *self,
    {
        Transform2D {
            previous: match &self.previous {
                Option::Some(p) => Option::Some(Box::new(p.duplicate_chain())),
                Option::None => Option::None,
            },
            rotate: self.rotate,
            translate: self.translate,
            anchor: self.anchor,
            scale: self.scale,
            skew: self.skew,
        }
    }
}

impl Clone for Transform2D {
    /// An exact copy of the whole chain.
    fn clone(&self) -> (r: Self)
        ensures
            r == *self,
    {
        self.duplicate_chain()
    }
}

/// Transforms snap under transitions (no blending of transform chains).
impl Interpolatable for Transform2D {
    open spec fn valid(self) -> bool {
        true
    }

    open spec fn interp_spec(self, other: Self, m: int) -> Self {
        self
    }

    fn interpolate(&self, other: &Self, m: i64) -> (r: Self) {
        self.duplicate_chain()
    }

    fn duplicate(&self) -> (r: Self) {
        self.duplicate_chain()
    }
}

} // verus!
