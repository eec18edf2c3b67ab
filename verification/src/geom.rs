//! Bounding-volume utilities: integer points, axis-aligned boxes, affine
//! transforms, and the distance measures used for frustum culling and
//! depth ordering.
//!
//! Model-space data (vertices, transform entries) is bounded by
//! [`LOCAL_BOUND`]; everything an affine transform can produce from such data
//! then fits within [`WORLD_BOUND`], and every product or sum below is proved
//! free of overflow from those two bounds.

use vstd::prelude::*;

verus! {

/// Bound on model-space coordinates and on transform entries.
pub const LOCAL_BOUND: i64 = 4096;

/// Bound on world-space coordinates: any affine image of local data fits,
/// since 3 * 4096 * 4096 + 4096 < 67108864.
pub const WORLD_BOUND: i64 = 67108864;

/// A point (or vector) with integer coordinates.
#[derive(Clone, Copy, Debug, PartialEq, Eq, Structural)]
pub struct Point3 {
    pub x: i64,
    pub y: i64,
    pub z: i64,
}

/// An axis-aligned box, `min` componentwise at most `max`.
#[derive(Clone, Copy, Debug, PartialEq, Eq, Structural)]
pub struct BBox {
    pub min: Point3,
    pub max: Point3,
}

/// A 4x4 affine transform, row-major: row `r`, column `c` is `m{r}{c}`.
/// A point `(x, y, z, 1)` maps to `(m00 x + m01 y + m02 z + m03, ...)`;
/// the projective row `m30..m33` is carried for the backend but does not
/// enter the affine point map.
#[derive(Clone, Copy, Debug, PartialEq, Eq, Structural)]
pub struct Transform {
    pub m00: i64, pub m01: i64, pub m02: i64, pub m03: i64,
    pub m10: i64, pub m11: i64, pub m12: i64, pub m13: i64,
    pub m20: i64, pub m21: i64, pub m22: i64, pub m23: i64,
    pub m30: i64, pub m31: i64, pub m32: i64, pub m33: i64,
}

pub open spec fn min2(a: int, b: int) -> int {
    if a <= b { a } else { b }
}

pub open spec fn max2(a: int, b: int) -> int {
    if a <= b { b } else { a }
}

/// The point lies within model-space bounds.
pub open spec fn pt_local(p: Point3) -> bool {
    &&& -LOCAL_BOUND <= p.x <= LOCAL_BOUND
    &&& -LOCAL_BOUND <= p.y <= LOCAL_BOUND
    &&& -LOCAL_BOUND <= p.z <= LOCAL_BOUND
}

/// The point lies within world-space bounds.
pub open spec fn pt_world(p: Point3) -> bool {
    &&& -WORLD_BOUND <= p.x <= WORLD_BOUND
    &&& -WORLD_BOUND <= p.y <= WORLD_BOUND
    &&& -WORLD_BOUND <= p.z <= WORLD_BOUND
}

/// `min` is componentwise at most `max`.
pub open spec fn box_ordered(b: BBox) -> bool {
    &&& b.min.x <= b.max.x
    &&& b.min.y <= b.max.y
    &&& b.min.z <= b.max.z
}

/// A well-formed model-space box.
pub open spec fn box_local(b: BBox) -> bool {
    pt_local(b.min) && pt_local(b.max) && box_ordered(b)
}

/// A well-formed world-space box.
pub open spec fn box_world(b: BBox) -> bool {
    pt_world(b.min) && pt_world(b.max) && box_ordered(b)
}

/// All sixteen transform entries lie within model-space bounds.
pub open spec fn tf_wf(t: Transform) -> bool {
    &&& -LOCAL_BOUND <= t.m00 <= LOCAL_BOUND
    &&& -LOCAL_BOUND <= t.m01 <= LOCAL_BOUND
    &&& -LOCAL_BOUND <= t.m02 <= LOCAL_BOUND
    &&& -LOCAL_BOUND <= t.m03 <= LOCAL_BOUND
    &&& -LOCAL_BOUND <= t.m10 <= LOCAL_BOUND
    &&& -LOCAL_BOUND <= t.m11 <= LOCAL_BOUND
    &&& -LOCAL_BOUND <= t.m12 <= LOCAL_BOUND
    &&& -LOCAL_BOUND <= t.m13 <= LOCAL_BOUND
    &&& -LOCAL_BOUND <= t.m20 <= LOCAL_BOUND
    &&& -LOCAL_BOUND <= t.m21 <= LOCAL_BOUND
    &&& -LOCAL_BOUND <= t.m22 <= LOCAL_BOUND
    &&& -LOCAL_BOUND <= t.m23 <= LOCAL_BOUND
    &&& -LOCAL_BOUND <= t.m30 <= LOCAL_BOUND
    &&& -LOCAL_BOUND <= t.m31 <= LOCAL_BOUND
    &&& -LOCAL_BOUND <= t.m32 <= LOCAL_BOUND
    &&& -LOCAL_BOUND <= t.m33 <= LOCAL_BOUND
}

/// x coordinate of the affine image of `p` under `t`.
pub open spec fn apply_x(t: Transform, p: Point3) -> int {
    t.m00 * p.x + t.m01 * p.y + t.m02 * p.z + t.m03
}

/// y coordinate of the affine image of `p` under `t`.
pub open spec fn apply_y(t: Transform, p: Point3) -> int {
    t.m10 * p.x + t.m11 * p.y + t.m12 * p.z + t.m13
}

/// z coordinate of the affine image of `p` under `t`.
pub open spec fn apply_z(t: Transform, p: Point3) -> int {
    t.m20 * p.x + t.m21 * p.y + t.m22 * p.z + t.m23
}

/// `q` is the affine image of `p` under `t`.
pub open spec fn is_apply(q: Point3, t: Transform, p: Point3) -> bool {
    q.x == apply_x(t, p) && q.y == apply_y(t, p) && q.z == apply_z(t, p)
}

/// Least value of `m0 x + m1 y + m2 z + m3` over the box `b`: each term is
/// minimized independently, which is exactly the minimum over the corners.
pub open spec fn row_min(m0: int, m1: int, m2: int, m3: int, b: BBox) -> int {
    m3 + min2(m0 * b.min.x, m0 * b.max.x)
       + min2(m1 * b.min.y, m1 * b.max.y)
       + min2(m2 * b.min.z, m2 * b.max.z)
}

/// Greatest value of `m0 x + m1 y + m2 z + m3` over the box `b`.
pub open spec fn row_max(m0: int, m1: int, m2: int, m3: int, b: BBox) -> int {
    m3 + max2(m0 * b.min.x, m0 * b.max.x)
       + max2(m1 * b.min.y, m1 * b.max.y)
       + max2(m2 * b.min.z, m2 * b.max.z)
}

/// `w` is the tight axis-aligned box around the affine image of `b` under
/// `t`: on each axis, the extremes of the row expression over `b`.
pub open spec fn is_world_box(w: BBox, t: Transform, b: BBox) -> bool {
    &&& w.min.x == row_min(t.m00 as int, t.m01 as int, t.m02 as int, t.m03 as int, b)
    &&& w.max.x == row_max(t.m00 as int, t.m01 as int, t.m02 as int, t.m03 as int, b)
    &&& w.min.y == row_min(t.m10 as int, t.m11 as int, t.m12 as int, t.m13 as int, b)
    &&& w.max.y == row_max(t.m10 as int, t.m11 as int, t.m12 as int, t.m13 as int, b)
    &&& w.min.z == row_min(t.m20 as int, t.m21 as int, t.m22 as int, t.m23 as int, b)
    &&& w.max.z == row_max(t.m20 as int, t.m21 as int, t.m22 as int, t.m23 as int, b)
}

/// `c` is the center of `b`, rounded toward `min` on each axis.
pub open spec fn is_box_center(c: Point3, b: BBox) -> bool {
    &&& c.x == b.min.x + (b.max.x - b.min.x) / 2
    &&& c.y == b.min.y + (b.max.y - b.min.y) / 2
    &&& c.z == b.min.z + (b.max.z - b.min.z) / 2
}

/// Squared euclidean distance between two points.
pub open spec fn dist_sq(a: Point3, b: Point3) -> int {
    (a.x - b.x) * (a.x - b.x) + (a.y - b.y) * (a.y - b.y) + (a.z - b.z) * (a.z - b.z)
}

/// Distance from `c` to the interval `[lo, hi]` (zero inside it).
pub open spec fn axis_gap(lo: int, hi: int, c: int) -> int {
    if c < lo { lo - c } else if c > hi { c - hi } else { 0 }
}

/// Squared distance from the point `p` to the box `b` (zero if `p` is in `b`).
pub open spec fn box_gap_sq(b: BBox, p: Point3) -> int {
    axis_gap(b.min.x as int, b.max.x as int, p.x as int)
        * axis_gap(b.min.x as int, b.max.x as int, p.x as int)
        + axis_gap(b.min.y as int, b.max.y as int, p.y as int)
            * axis_gap(b.min.y as int, b.max.y as int, p.y as int)
        + axis_gap(b.min.z as int, b.max.z as int, p.z as int)
            * axis_gap(b.min.z as int, b.max.z as int, p.z as int)
}

/// The box contains the point.
pub open spec fn box_contains(b: BBox, p: Point3) -> bool {
    &&& b.min.x <= p.x <= b.max.x
    &&& b.min.y <= p.y <= b.max.y
    &&& b.min.z <= p.z <= b.max.z
}

/// A product of factors bounded by `ba` and `bb` is bounded by `ba * bb`.
pub proof fn lemma_mul_bound(a: int, b: int, ba: int, bb: int)
    by (nonlinear_arith)
    requires
        -ba <= a <= ba,
        -bb <= b <= bb,
        0 <= ba,
        0 <= bb,
    ensures
        -(ba * bb) <= a * b <= ba * bb,
{
}

impl Transform {
    /// The identity transform.
    pub fn identity() -> (t: Transform)
        ensures
            t == (Transform {
                m00: 1i64, m01: 0i64, m02: 0i64, m03: 0i64,
                m10: 0i64, m11: 1i64, m12: 0i64, m13: 0i64,
                m20: 0i64, m21: 0i64, m22: 1i64, m23: 0i64,
                m30: 0i64, m31: 0i64, m32: 0i64, m33: 1i64,
            }),
            tf_wf(t),
    {
        Transform {
            m00: 1, m01: 0, m02: 0, m03: 0,
            m10: 0, m11: 1, m12: 0, m13: 0,
            m20: 0, m21: 0, m22: 1, m23: 0,
            m30: 0, m31: 0, m32: 0, m33: 1,
        }
    }
}

/// Smaller of two values.
pub fn min_i64(a: i64, b: i64) -> (r: i64)
    ensures
        r == min2(a as int, b as int),
{
    if a <= b { a } else { b }
}

/// Larger of two values.
pub fn max_i64(a: i64, b: i64) -> (r: i64)
    ensures
        r == max2(a as int, b as int),
{
    if a <= b { b } else { a }
}

/// The affine image of a model-space point under a well-formed transform.
pub fn apply_transform(t: &Transform, p: Point3) -> (q: Point3)
    requires
        tf_wf(*t),
        pt_local(p),
    ensures
        is_apply(q, *t, p),
        pt_world(q),
{
    proof {
        lemma_mul_bound(t.m00 as int, p.x as int, LOCAL_BOUND as int, LOCAL_BOUND as int);
        lemma_mul_bound(t.m01 as int, p.y as int, LOCAL_BOUND as int, LOCAL_BOUND as int);
        lemma_mul_bound(t.m02 as int, p.z as int, LOCAL_BOUND as int, LOCAL_BOUND as int);
        lemma_mul_bound(t.m10 as int, p.x as int, LOCAL_BOUND as int, LOCAL_BOUND as int);
        lemma_mul_bound(t.m11 as int, p.y as int, LOCAL_BOUND as int, LOCAL_BOUND as int);
        lemma_mul_bound(t.m12 as int, p.z as int, LOCAL_BOUND as int, LOCAL_BOUND as int);
        lemma_mul_bound(t.m20 as int, p.x as int, LOCAL_BOUND as int, LOCAL_BOUND as int);
        lemma_mul_bound(t.m21 as int, p.y as int, LOCAL_BOUND as int, LOCAL_BOUND as int);
        lemma_mul_bound(t.m22 as int, p.z as int, LOCAL_BOUND as int, LOCAL_BOUND as int);
    }
    Point3 {
        x: t.m00 * p.x + t.m01 * p.y + t.m02 * p.z + t.m03,
        y: t.m10 * p.x + t.m11 * p.y + t.m12 * p.z + t.m13,
        z: t.m20 * p.x + t.m21 * p.y + t.m22 * p.z + t.m23,
    }
}

/// Extremes of `m0 x + m1 y + m2 z + m3` over a model-space box.
fn row_bounds(m0: i64, m1: i64, m2: i64, m3: i64, b: &BBox) -> (r: (i64, i64))
    requires
        -LOCAL_BOUND <= m0 <= LOCAL_BOUND,
        -LOCAL_BOUND <= m1 <= LOCAL_BOUND,
        -LOCAL_BOUND <= m2 <= LOCAL_BOUND,
        -LOCAL_BOUND <= m3 <= LOCAL_BOUND,
        box_local(*b),
    ensures
        r.0 == row_min(m0 as int, m1 as int, m2 as int, m3 as int, *b),
        r.1 == row_max(m0 as int, m1 as int, m2 as int, m3 as int, *b),
        -WORLD_BOUND <= r.0 <= r.1 <= WORLD_BOUND,
{
    proof {
        lemma_mul_bound(m0 as int, b.min.x as int, LOCAL_BOUND as int, LOCAL_BOUND as int);
        lemma_mul_bound(m0 as int, b.max.x as int, LOCAL_BOUND as int, LOCAL_BOUND as int);
        lemma_mul_bound(m1 as int, b.min.y as int, LOCAL_BOUND as int, LOCAL_BOUND as int);
        lemma_mul_bound(m1 as int, b.max.y as int, LOCAL_BOUND as int, LOCAL_BOUND as int);
        lemma_mul_bound(m2 as int, b.min.z as int, LOCAL_BOUND as int, LOCAL_BOUND as int);
        lemma_mul_bound(m2 as int, b.max.z as int, LOCAL_BOUND as int, LOCAL_BOUND as int);
    }
    let x0 = m0 * b.min.x;
    let x1 = m0 * b.max.x;
    let y0 = m1 * b.min.y;
    let y1 = m1 * b.max.y;
    let z0 = m2 * b.min.z;
    let z1 = m2 * b.max.z;
    let lo = m3 + min_i64(x0, x1) + min_i64(y0, y1) + min_i64(z0, z1);
    let hi = m3 + max_i64(x0, x1) + max_i64(y0, y1) + max_i64(z0, z1);
    (lo, hi)
}

/// The tight world-space box around the affine image of a model-space box.
pub fn world_box(t: &Transform, b: &BBox) -> (w: BBox)
    requires
        tf_wf(*t),
        box_local(*b),
    ensures
        is_world_box(w, *t, *b),
        box_world(w),
{
    let rx = row_bounds(t.m00, t.m01, t.m02, t.m03, b);
    let ry = row_bounds(t.m10, t.m11, t.m12, t.m13, b);
    let rz = row_bounds(t.m20, t.m21, t.m22, t.m23, b);
    BBox {
        min: Point3 { x: rx.0, y: ry.0, z: rz.0 },
        max: Point3 { x: rx.1, y: ry.1, z: rz.1 },
    }
}

/// Center of a box, rounded toward `min` on each axis.
pub fn box_center(b: &BBox) -> (c: Point3)
    requires
        box_ordered(*b),
        pt_world(b.min),
        pt_world(b.max),
    ensures
        is_box_center(c, *b),
        box_contains(*b, c),
{
    Point3 {
        x: b.min.x + (b.max.x - b.min.x) / 2,
        y: b.min.y + (b.max.y - b.min.y) / 2,
        z: b.min.z + (b.max.z - b.min.z) / 2,
    }
}

/// Squared distance between two world-space points.
pub fn dist_sq_exec(a: &Point3, b: &Point3) -> (d: i64)
    requires
        pt_world(*a),
        pt_world(*b),
    ensures
        d == dist_sq(*a, *b),
        0 <= d,
{
    let dx = a.x - b.x;
    let dy = a.y - b.y;
    let dz = a.z - b.z;
    proof {
        lemma_mul_bound(dx as int, dx as int, 2 * WORLD_BOUND as int, 2 * WORLD_BOUND as int);
        lemma_mul_bound(dy as int, dy as int, 2 * WORLD_BOUND as int, 2 * WORLD_BOUND as int);
        lemma_mul_bound(dz as int, dz as int, 2 * WORLD_BOUND as int, 2 * WORLD_BOUND as int);
        lemma_square_nonneg(dx as int);
        lemma_square_nonneg(dy as int);
        lemma_square_nonneg(dz as int);
    }
    dx * dx + dy * dy + dz * dz
}

/// A square is never negative.
pub proof fn lemma_square_nonneg(a: int)
    by (nonlinear_arith)
    ensures
        0 <= a * a,
{
}

/// Squared distance from a world-space point to a world-space box.
pub fn box_gap_sq_exec(b: &BBox, p: &Point3) -> (d: i64)
    requires
        box_world(*b),
        pt_world(*p),
    ensures
        d == box_gap_sq(*b, *p),
        0 <= d,
{
    let gx = axis_gap_exec(b.min.x, b.max.x, p.x);
    let gy = axis_gap_exec(b.min.y, b.max.y, p.y);
    let gz = axis_gap_exec(b.min.z, b.max.z, p.z);
    proof {
        lemma_mul_bound(gx as int, gx as int, 2 * WORLD_BOUND as int, 2 * WORLD_BOUND as int);
        lemma_mul_bound(gy as int, gy as int, 2 * WORLD_BOUND as int, 2 * WORLD_BOUND as int);
        lemma_mul_bound(gz as int, gz as int, 2 * WORLD_BOUND as int, 2 * WORLD_BOUND as int);
        lemma_square_nonneg(gx as int);
        lemma_square_nonneg(gy as int);
        lemma_square_nonneg(gz as int);
    }
    gx * gx + gy * gy + gz * gz
}

/// Distance from `c` to the interval `[lo, hi]`.
fn axis_gap_exec(lo: i64, hi: i64, c: i64) -> (g: i64)
    requires
        -WORLD_BOUND <= lo <= hi <= WORLD_BOUND,
        -WORLD_BOUND <= c <= WORLD_BOUND,
    ensures
        g == axis_gap(lo as int, hi as int, c as int),
        0 <= g <= 2 * WORLD_BOUND,
{
    if c < lo {
        lo - c
    } else if c > hi {
        c - hi
    } else {
        0
    }
}

/// Every point of the box maps, under the transform, into the world box:
/// the box computed by `is_world_box` really encloses the transformed set.
pub proof fn lemma_world_box_encloses(w: BBox, t: Transform, b: BBox, p: Point3, q: Point3)
    requires
        is_world_box(w, t, b),
        box_contains(b, p),
        is_apply(q, t, p),
    ensures
        box_contains(w, q),
{
    lemma_term_range(t.m00 as int, b.min.x as int, b.max.x as int, p.x as int);
    lemma_term_range(t.m01 as int, b.min.y as int, b.max.y as int, p.y as int);
    lemma_term_range(t.m02 as int, b.min.z as int, b.max.z as int, p.z as int);
    lemma_term_range(t.m10 as int, b.min.x as int, b.max.x as int, p.x as int);
    lemma_term_range(t.m11 as int, b.min.y as int, b.max.y as int, p.y as int);
    lemma_term_range(t.m12 as int, b.min.z as int, b.max.z as int, p.z as int);
    lemma_term_range(t.m20 as int, b.min.x as int, b.max.x as int, p.x as int);
    lemma_term_range(t.m21 as int, b.min.y as int, b.max.y as int, p.y as int);
    lemma_term_range(t.m22 as int, b.min.z as int, b.max.z as int, p.z as int);
}

/// For `lo <= v <= hi`, the product `m * v` lies between `min2(m lo, m hi)`
/// and `max2(m lo, m hi)`.
proof fn lemma_term_range(m: int, lo: int, hi: int, v: int)
    by (nonlinear_arith)
    requires
        lo <= v <= hi,
    ensures
        min2(m * lo, m * hi) <= m * v <= max2(m * lo, m * hi),
{
}

} // verus!
