//! Shape records: the style tag, resource references, optional style fields,
//! the transform and the bounding volume derived from it.
//!
//! A record is immutable after creation except for the fields a transform
//! update rewrites (`transform`, `bbox`, `pos`); `rec_wf` is the invariant
//! every stored record keeps.

use vstd::prelude::*;

use crate::geom::{
    box_local, is_apply, is_box_center, is_world_box, pt_local, pt_world, tf_wf, BBox, Point3,
    Transform,
};

verus! {

/// Reference to a model in the registry's model table.
#[derive(Clone, Copy, Debug, PartialEq, Eq, Structural)]
pub struct ModelId(pub usize);

/// Reference to a texture-coordinate buffer in the registry.
#[derive(Clone, Copy, Debug, PartialEq, Eq, Structural)]
pub struct TexCoordsId(pub usize);

/// Reference to a per-vertex color buffer in the registry.
#[derive(Clone, Copy, Debug, PartialEq, Eq, Structural)]
pub struct GradientId(pub usize);

/// Reference to a texture in the registry.
#[derive(Clone, Copy, Debug, PartialEq, Eq, Structural)]
pub struct TextureId(pub usize);

/// An RGBA color, each channel a fixed-point integer.
#[derive(Clone, Copy, Debug, PartialEq, Eq, Structural)]
pub struct Color {
    pub r: i64,
    pub g: i64,
    pub b: i64,
    pub a: i64,
}

/// The six draw-pipeline variants.
#[derive(Clone, Copy, Debug, PartialEq, Eq, Structural)]
pub enum ShapeStyle {
    Gradient,
    Texture,
    Faded,
    Tinted,
    Solid,
    Complex,
}

/// A positioned, boxed shape: style tag, resource references, optional style
/// fields, transform, and the world-space bounds derived from the model's
/// local box (copied into the record at creation, as the fan ranges are).
#[derive(Clone, Debug, PartialEq)]
pub struct ShapeRec {
    /// Draw-pipeline variant.
    pub style: ShapeStyle,
    /// Back-reference to the model.
    pub model: ModelId,
    /// Texture-coordinate buffer, for the textured styles.
    pub texcoords: Option<TexCoordsId>,
    /// Per-vertex color buffer, for `Gradient` and `Complex`.
    pub gradient: Option<GradientId>,
    /// Texture sampler, for the textured styles.
    pub texture: Option<TextureId>,
    /// Scalar alpha, for `Faded`.
    pub alpha: Option<i64>,
    /// Flat color, for `Solid` and `Tinted`.
    pub color: Option<Color>,
    /// Whether fog parameters apply to this shape.
    pub has_fog: bool,
    /// Transformation matrix.
    pub transform: Transform,
    /// World-space bounding box: the image of `local_box` under `transform`.
    pub bbox: BBox,
    /// World-space reference point: the image of `local_center`.
    pub pos: Point3,
    /// The model's local bounding box, copied at creation.
    pub local_box: BBox,
    /// Center of `local_box`, copied at creation.
    pub local_center: Point3,
    /// Triangle-fan ranges, copied from the model at creation.
    pub fans: Vec<(u32, u32)>,
}

/// Which optional resources a style consumes; dispatch binds exactly these.
#[derive(Clone, Copy, Debug, PartialEq, Eq, Structural)]
pub struct StyleDecl {
    /// Texture-coordinate vertex attribute.
    pub uses_texcoords: bool,
    /// Per-vertex color attribute.
    pub uses_gradient: bool,
    /// Texture sampler.
    pub uses_texture: bool,
    /// Scalar alpha uniform.
    pub uses_alpha: bool,
    /// Flat color uniform.
    pub uses_color: bool,
}

/// The resource declaration of each style.
pub open spec fn style_decl(s: ShapeStyle) -> StyleDecl {
    match s {
        ShapeStyle::Gradient => StyleDecl {
            uses_texcoords: false,
            uses_gradient: true,
            uses_texture: false,
            uses_alpha: false,
            uses_color: false,
        },
        ShapeStyle::Texture => StyleDecl {
            uses_texcoords: true,
            uses_gradient: false,
            uses_texture: true,
            uses_alpha: false,
            uses_color: false,
        },
        ShapeStyle::Faded => StyleDecl {
            uses_texcoords: true,
            uses_gradient: false,
            uses_texture: true,
            uses_alpha: true,
            uses_color: false,
        },
        ShapeStyle::Tinted => StyleDecl {
            uses_texcoords: true,
            uses_gradient: false,
            uses_texture: true,
            uses_alpha: false,
            uses_color: true,
        },
        ShapeStyle::Solid => StyleDecl {
            uses_texcoords: false,
            uses_gradient: false,
            uses_texture: false,
            uses_alpha: false,
            uses_color: false,
        },
        ShapeStyle::Complex => StyleDecl {
            uses_texcoords: true,
            uses_gradient: true,
            uses_texture: true,
            uses_alpha: false,
            uses_color: false,
        },
    }
}

/// The record carries a resource exactly when its style declares it
/// (except the flat color, which `Solid` carries as its mandatory field).
pub open spec fn presence_matches(r: ShapeRec) -> bool {
    &&& r.texcoords.is_some() == style_decl(r.style).uses_texcoords
    &&& r.gradient.is_some() == style_decl(r.style).uses_gradient
    &&& r.texture.is_some() == style_decl(r.style).uses_texture
    &&& r.alpha.is_some() == style_decl(r.style).uses_alpha
    &&& r.color.is_some() == (style_decl(r.style).uses_color || r.style == ShapeStyle::Solid)
}

/// Internal consistency of a record: bounded geometry, and the derived
/// fields (`bbox`, `pos`) really are the image of the local data under the
/// record's transform.
pub open spec fn rec_wf(r: ShapeRec) -> bool {
    &&& tf_wf(r.transform)
    &&& box_local(r.local_box)
    &&& pt_local(r.local_center)
    &&& is_box_center(r.local_center, r.local_box)
    &&& is_world_box(r.bbox, r.transform, r.local_box)
    &&& is_apply(r.pos, r.transform, r.local_center)
    &&& presence_matches(r)
}

/// `r2` is `r1` carried to the transform `t`: all creation-time fields kept,
/// only `transform` and the derived bounds rewritten.
pub open spec fn is_retransformed(r2: ShapeRec, r1: ShapeRec, t: Transform) -> bool {
    &&& r2.style == r1.style
    &&& r2.model == r1.model
    &&& r2.texcoords == r1.texcoords
    &&& r2.gradient == r1.gradient
    &&& r2.texture == r1.texture
    &&& r2.alpha == r1.alpha
    &&& r2.color == r1.color
    &&& r2.has_fog == r1.has_fog
    &&& r2.local_box == r1.local_box
    &&& r2.local_center == r1.local_center
    &&& r2.fans@ == r1.fans@
    &&& r2.transform == t
    &&& is_world_box(r2.bbox, t, r1.local_box)
    &&& is_apply(r2.pos, t, r1.local_center)
}

/// The record's world-space bounds are themselves bounded.
pub proof fn lemma_rec_world_bounds(r: ShapeRec)
    requires
        rec_wf(r),
    ensures
        crate::geom::box_world(r.bbox),
        pt_world(r.pos),
{
    let b = r.local_box;
    let t = r.transform;
    crate::geom::lemma_mul_bound(t.m00 as int, b.min.x as int, 4096, 4096);
    crate::geom::lemma_mul_bound(t.m00 as int, b.max.x as int, 4096, 4096);
    crate::geom::lemma_mul_bound(t.m01 as int, b.min.y as int, 4096, 4096);
    crate::geom::lemma_mul_bound(t.m01 as int, b.max.y as int, 4096, 4096);
    crate::geom::lemma_mul_bound(t.m02 as int, b.min.z as int, 4096, 4096);
    crate::geom::lemma_mul_bound(t.m02 as int, b.max.z as int, 4096, 4096);
    crate::geom::lemma_mul_bound(t.m10 as int, b.min.x as int, 4096, 4096);
    crate::geom::lemma_mul_bound(t.m10 as int, b.max.x as int, 4096, 4096);
    crate::geom::lemma_mul_bound(t.m11 as int, b.min.y as int, 4096, 4096);
    crate::geom::lemma_mul_bound(t.m11 as int, b.max.y as int, 4096, 4096);
    crate::geom::lemma_mul_bound(t.m12 as int, b.min.z as int, 4096, 4096);
    crate::geom::lemma_mul_bound(t.m12 as int, b.max.z as int, 4096, 4096);
    crate::geom::lemma_mul_bound(t.m20 as int, b.min.x as int, 4096, 4096);
    crate::geom::lemma_mul_bound(t.m20 as int, b.max.x as int, 4096, 4096);
    crate::geom::lemma_mul_bound(t.m21 as int, b.min.y as int, 4096, 4096);
    crate::geom::lemma_mul_bound(t.m21 as int, b.max.y as int, 4096, 4096);
    crate::geom::lemma_mul_bound(t.m22 as int, b.min.z as int, 4096, 4096);
    crate::geom::lemma_mul_bound(t.m22 as int, b.max.z as int, 4096, 4096);
    let c = r.local_center;
    crate::geom::lemma_mul_bound(t.m00 as int, c.x as int, 4096, 4096);
    crate::geom::lemma_mul_bound(t.m01 as int, c.y as int, 4096, 4096);
    crate::geom::lemma_mul_bound(t.m02 as int, c.z as int, 4096, 4096);
    crate::geom::lemma_mul_bound(t.m10 as int, c.x as int, 4096, 4096);
    crate::geom::lemma_mul_bound(t.m11 as int, c.y as int, 4096, 4096);
    crate::geom::lemma_mul_bound(t.m12 as int, c.z as int, 4096, 4096);
    crate::geom::lemma_mul_bound(t.m20 as int, c.x as int, 4096, 4096);
    crate::geom::lemma_mul_bound(t.m21 as int, c.y as int, 4096, 4096);
    crate::geom::lemma_mul_bound(t.m22 as int, c.z as int, 4096, 4096);
}

} // verus!
