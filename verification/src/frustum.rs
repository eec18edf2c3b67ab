//! The view volume used to cull and order shapes: a reference point and a
//! visible radius. A box is visible when its distance to the reference
//! point is within the radius; the same reference point orders the opaque
//! pass front-to-back and the alpha pass back-to-front.

use vstd::prelude::*;

use crate::geom::{box_gap_sq, box_gap_sq_exec, box_world, lemma_mul_bound, pt_world, BBox,
    Point3, WORLD_BOUND};

verus! {

/// The camera's visible volume: reference point and radius.
#[derive(Clone, Copy, Debug, PartialEq, Eq, Structural)]
pub struct Frustum {
    /// Reference point: distance to it orders both spatial passes.
    pub center: Point3,
    /// Visibility radius around the reference point.
    pub radius: i64,
}

/// Bounded center, non-negative bounded radius.
pub open spec fn frustum_wf(f: Frustum) -> bool {
    pt_world(f.center) && 0 <= f.radius <= WORLD_BOUND
}

/// The box intersects the view volume: its distance to the reference point
/// is within the radius.
pub open spec fn intersects(f: Frustum, b: BBox) -> bool {
    box_gap_sq(b, f.center) <= f.radius * f.radius
}

impl Frustum {
    /// Whether a world-space box intersects this view volume.
    pub fn intersects_box(&self, b: &BBox) -> (r: bool)
        requires
            frustum_wf(*self),
            box_world(*b),
        ensures
            r == intersects(*self, *b),
    {
        let g = box_gap_sq_exec(b, &self.center);
        proof {
            lemma_mul_bound(
                self.radius as int,
                self.radius as int,
                WORLD_BOUND as int,
                WORLD_BOUND as int,
            );
        }
        let rr = self.radius * self.radius;
        g <= rr
    }
}

} // verus!
