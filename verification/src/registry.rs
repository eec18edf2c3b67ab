//! The shape registry: owns the two spatial indices (opaque, alpha) plus
//! the flat overlay list, the resource tables (models, texture coordinates,
//! gradients, textures), and the camera, fog and clear-color state; issues
//! and resolves stable handles.
//!
//! Routing at creation: a shape that wants neither camera nor fog goes to
//! the overlay list; otherwise it goes to the alpha index when blending,
//! else to the opaque index. Pass membership is fixed at creation.

use vstd::prelude::*;

use crate::frustum::{frustum_wf, Frustum};
use crate::geom::{
    apply_transform, box_center, box_local, is_apply, is_box_center, is_world_box, max_i64,
    min_i64, pt_local, pt_world, tf_wf, world_box, BBox, Point3, Transform, LOCAL_BOUND,
    WORLD_BOUND,
};
use crate::index::SpatialIndex;
use crate::shape::{
    is_retransformed, rec_wf, Color, GradientId, ModelId, ShapeRec, ShapeStyle, TexCoordsId,
    TextureId,
};

verus! {

/// Immutable geometry: vertex count, local bounds, local center, and the
/// triangle-fan ranges. Owned by the registry; shapes reference it by id.
pub struct ModelInfo {
    /// Number of vertices (the vertex stream carries four values each).
    pub vertex_count: usize,
    /// Tight local-space bounds of the vertex positions.
    pub local_box: BBox,
    /// Center of `local_box`: the shape's distance reference point.
    pub local_center: Point3,
    /// Triangle-fan ranges over the vertex stream.
    pub fans: Vec<(u32, u32)>,
}

/// A per-vertex attribute buffer's bookkeeping: its vertex count.
pub struct AttrInfo {
    /// Number of vertices the buffer covers.
    pub vertex_count: usize,
}

/// A texture's bookkeeping: its dimensions.
#[derive(Clone, Copy, Debug, PartialEq, Eq, Structural)]
pub struct TextureInfo {
    /// Width in pixels.
    pub width: u32,
    /// Height in pixels.
    pub height: u32,
}

/// Capability token for a created shape: pass and slot. The key under an
/// `Opaque` or `Alpha` handle is rewritten by `set_transform`; the handle
/// itself stays valid.
#[derive(Clone, Copy, Debug, PartialEq, Eq, Structural)]
pub enum Handle {
    /// Depth-tested pass, drawn front-to-back.
    Opaque(u64),
    /// Blended pass, drawn back-to-front.
    Alpha(u64),
    /// Screen-space pass, drawn in insertion order.
    Overlay(usize),
}

/// A shape constructor's failure.
#[derive(Clone, Copy, Debug, PartialEq, Eq, Structural)]
pub enum ShapeError {
    /// An auxiliary per-vertex buffer's vertex count differs from the
    /// model's; detected before any backend work.
    MismatchedAttributeCount,
}

/// `i`-th vertex's x coordinate in a vertex stream of four values each.
pub open spec fn vert_x(vs: Seq<i64>, i: int) -> i64 {
    vs[4 * i]
}

/// `i`-th vertex's y coordinate.
pub open spec fn vert_y(vs: Seq<i64>, i: int) -> i64 {
    vs[4 * i + 1]
}

/// `i`-th vertex's z coordinate.
pub open spec fn vert_z(vs: Seq<i64>, i: int) -> i64 {
    vs[4 * i + 2]
}

/// Number of vertices a stream of four values each holds.
pub open spec fn vert_count(vs: Seq<i64>) -> int {
    vs.len() as int / 4
}

/// The zero point.
pub open spec fn origin_pt() -> Point3 {
    Point3 { x: 0i64, y: 0i64, z: 0i64 }
}

/// `b` is the tight bounding box of the stream's vertex positions (the
/// point box at the origin for an empty stream): every vertex lies within
/// it and every face of it is attained.
pub open spec fn is_model_bounds(b: BBox, vs: Seq<i64>) -> bool {
    if vert_count(vs) == 0 {
        b == (BBox { min: origin_pt(), max: origin_pt() })
    } else {
        &&& forall|i: int|
            0 <= i < vert_count(vs) ==> b.min.x <= #[trigger] vert_x(vs, i) <= b.max.x
        &&& forall|i: int|
            0 <= i < vert_count(vs) ==> b.min.y <= #[trigger] vert_y(vs, i) <= b.max.y
        &&& forall|i: int|
            0 <= i < vert_count(vs) ==> b.min.z <= #[trigger] vert_z(vs, i) <= b.max.z
        &&& exists|i: int| 0 <= i < vert_count(vs) && b.min.x == #[trigger] vert_x(vs, i)
        &&& exists|i: int| 0 <= i < vert_count(vs) && b.max.x == #[trigger] vert_x(vs, i)
        &&& exists|i: int| 0 <= i < vert_count(vs) && b.min.y == #[trigger] vert_y(vs, i)
        &&& exists|i: int| 0 <= i < vert_count(vs) && b.max.y == #[trigger] vert_y(vs, i)
        &&& exists|i: int| 0 <= i < vert_count(vs) && b.min.z == #[trigger] vert_z(vs, i)
        &&& exists|i: int| 0 <= i < vert_count(vs) && b.max.z == #[trigger] vert_z(vs, i)
    }
}

/// The registry: both spatial indices, the overlay list, the resource
/// tables, and the camera, fog, viewport and clear-color state.
pub struct Registry {
    /// Depth-tested shapes, keyed and spatially indexed.
    pub opaque: SpatialIndex,
    /// Blended shapes, keyed and spatially indexed.
    pub alpha: SpatialIndex,
    /// Screen-space shapes, drawn in insertion order.
    pub overlay: Vec<ShapeRec>,
    /// Immutable geometry table.
    pub models: Vec<ModelInfo>,
    /// Texture-coordinate buffer table.
    pub texcoords: Vec<AttrInfo>,
    /// Per-vertex color buffer table.
    pub gradients: Vec<AttrInfo>,
    /// Texture table.
    pub textures: Vec<TextureInfo>,
    /// Background color (red, green, blue).
    pub clear_color: (i64, i64, i64),
    /// Fog begin and end distance, if fog is on.
    pub fog: Option<(i64, i64)>,
    /// Camera eye position: the frustum's reference point.
    pub cam_pos: Point3,
    /// Camera rotation; carried for the backend's view matrix.
    pub cam_rot: Point3,
    /// Visibility radius of the derived frustum.
    pub view_radius: i64,
    /// Viewport size in pixels.
    pub size: (u32, u32),
}

/// The record's references resolve in the registry's tables, its cached
/// local geometry is its model's, and any auxiliary buffer it carries
/// covers exactly the model's vertex count.
pub open spec fn rec_refs_ok(r: ShapeRec, reg: Registry) -> bool {
    &&& r.model.0 < reg.models@.len()
    &&& r.local_box == reg.models@[r.model.0 as int].local_box
    &&& r.local_center == reg.models@[r.model.0 as int].local_center
    &&& r.fans@ == reg.models@[r.model.0 as int].fans@
    &&& match r.texcoords {
        Some(t) => t.0 < reg.texcoords@.len() && reg.texcoords@[t.0 as int].vertex_count
            == reg.models@[r.model.0 as int].vertex_count,
        None => true,
    }
    &&& match r.gradient {
        Some(g) => g.0 < reg.gradients@.len() && reg.gradients@[g.0 as int].vertex_count
            == reg.models@[r.model.0 as int].vertex_count,
        None => true,
    }
    &&& match r.texture {
        Some(t) => t.0 < reg.textures@.len(),
        None => true,
    }
}

/// A model table entry's own consistency: bounded local box, its center
/// cached correctly.
pub open spec fn model_wf(mi: ModelInfo) -> bool {
    &&& box_local(mi.local_box)
    &&& is_box_center(mi.local_center, mi.local_box)
    &&& pt_local(mi.local_center)
}

/// The two registries hold the same resource tables and frame state; only
/// the shape collections may differ.
pub open spec fn same_tables(o: Registry, n: Registry) -> bool {
    &&& n.models@ == o.models@
    &&& n.texcoords@ == o.texcoords@
    &&& n.gradients@ == o.gradients@
    &&& n.textures@ == o.textures@
    &&& n.clear_color == o.clear_color
    &&& n.fog == o.fog
    &&& n.cam_pos == o.cam_pos
    &&& n.cam_rot == o.cam_rot
    &&& n.view_radius == o.view_radius
    &&& n.size == o.size
}

/// The record's derived data is exactly the model's local geometry carried
/// through the transform: the bounding-box invariant every shape keeps.
pub open spec fn rec_derived_ok(r: ShapeRec, t: Transform, mi: ModelInfo) -> bool {
    &&& r.transform == t
    &&& r.local_box == mi.local_box
    &&& r.local_center == mi.local_center
    &&& r.fans@ == mi.fans@
    &&& is_world_box(r.bbox, t, mi.local_box)
    &&& is_apply(r.pos, t, mi.local_center)
}

/// The creation-time fields of a solid shape: flat color only.
pub open spec fn solid_fields(r: ShapeRec, model: ModelId, color: Color, fog: bool) -> bool {
    &&& r.style == ShapeStyle::Solid
    &&& r.model == model
    &&& r.texcoords is None
    &&& r.gradient is None
    &&& r.texture is None
    &&& r.alpha is None
    &&& r.color == Some(color)
    &&& r.has_fog == fog
}

/// The creation-time fields of a gradient shape: one color per vertex.
pub open spec fn gradient_fields(r: ShapeRec, model: ModelId, colors: GradientId, fog: bool) -> bool {
    &&& r.style == ShapeStyle::Gradient
    &&& r.model == model
    &&& r.texcoords is None
    &&& r.gradient == Some(colors)
    &&& r.texture is None
    &&& r.alpha is None
    &&& r.color is None
    &&& r.has_fog == fog
}

/// The creation-time fields of a textured shape.
pub open spec fn texture_fields(r: ShapeRec, model: ModelId, texture: TextureId, tc: TexCoordsId, fog: bool) -> bool {
    &&& r.style == ShapeStyle::Texture
    &&& r.model == model
    &&& r.texcoords == Some(tc)
    &&& r.gradient is None
    &&& r.texture == Some(texture)
    &&& r.alpha is None
    &&& r.color is None
    &&& r.has_fog == fog
}

/// The creation-time fields of a faded shape: texture and scalar alpha.
pub open spec fn faded_fields(r: ShapeRec, model: ModelId, texture: TextureId, tc: TexCoordsId, alpha: i64, fog: bool) -> bool {
    &&& r.style == ShapeStyle::Faded
    &&& r.model == model
    &&& r.texcoords == Some(tc)
    &&& r.gradient is None
    &&& r.texture == Some(texture)
    &&& r.alpha == Some(alpha)
    &&& r.color is None
    &&& r.has_fog == fog
}

/// The creation-time fields of a tinted shape: texture and flat tint.
pub open spec fn tinted_fields(r: ShapeRec, model: ModelId, texture: TextureId, tc: TexCoordsId, tint: Color, fog: bool) -> bool {
    &&& r.style == ShapeStyle::Tinted
    &&& r.model == model
    &&& r.texcoords == Some(tc)
    &&& r.gradient is None
    &&& r.texture == Some(texture)
    &&& r.alpha is None
    &&& r.color == Some(tint)
    &&& r.has_fog == fog
}

/// The creation-time fields of a complex shape: texture and one tint per
/// vertex.
pub open spec fn complex_fields(r: ShapeRec, model: ModelId, texture: TextureId, tc: TexCoordsId, tints: GradientId, fog: bool) -> bool {
    &&& r.style == ShapeStyle::Complex
    &&& r.model == model
    &&& r.texcoords == Some(tc)
    &&& r.gradient == Some(tints)
    &&& r.texture == Some(texture)
    &&& r.alpha is None
    &&& r.color is None
    &&& r.has_fog == fog
}

/// `n` is `o` with `rec` routed to one collection and `h` its handle:
/// overlay when the shape wants neither camera nor fog, else alpha when it
/// blends, else opaque. Everything else is untouched.
pub open spec fn placed_shape(
    o: Registry,
    n: Registry,
    h: Handle,
    rec: ShapeRec,
    blending: bool,
    fog: bool,
    camera: bool,
) -> bool {
    &&& same_tables(o, n)
    &&& if !camera && !fog {
        &&& h == Handle::Overlay(o.overlay@.len() as usize)
        &&& n.overlay@ == o.overlay@.push(rec)
        &&& n.opaque == o.opaque
        &&& n.alpha == o.alpha
    } else if blending {
        &&& h == Handle::Alpha(o.alpha.key_bound())
        &&& !o.alpha@.dom().contains(o.alpha.key_bound())
        &&& n.alpha@ == o.alpha@.insert(o.alpha.key_bound(), rec)
        &&& n.alpha.key_bound() == o.alpha.key_bound() + 1
        &&& n.opaque == o.opaque
        &&& n.overlay@ == o.overlay@
    } else {
        &&& h == Handle::Opaque(o.opaque.key_bound())
        &&& !o.opaque@.dom().contains(o.opaque.key_bound())
        &&& n.opaque@ == o.opaque@.insert(o.opaque.key_bound(), rec)
        &&& n.opaque.key_bound() == o.opaque.key_bound() + 1
        &&& n.alpha == o.alpha
        &&& n.overlay@ == o.overlay@
    }
}

/// A copy of a fan-range list.
fn copy_fans(v: &Vec<(u32, u32)>) -> (r: Vec<(u32, u32)>)
    ensures
        r@ == v@,
{
    let mut r: Vec<(u32, u32)> = Vec::new();
    let n = v.len();
    let mut i: usize = 0;
    while i < n
        invariant
            n == v@.len(),
            i <= n,
            r@ == v@.subrange(0, i as int),
        decreases n - i,
    {
        let f = v[i];
        r.push(f);
        proof {
            assert(r@ =~= v@.subrange(0, i + 1));
        }
        i += 1;
    }
    proof {
        assert(r@ =~= v@);
    }
    r
}

impl Registry {
    /// The registry's invariant: both indices are well-formed, every stored
    /// record is internally consistent and resolves in the tables, and the
    /// camera state can derive a well-formed frustum.
    pub open spec fn wf(self) -> bool {
        &&& self.opaque.wf()
        &&& self.alpha.wf()
        &&& forall|k: u64| #[trigger] self.opaque@.dom().contains(k) ==> rec_refs_ok(
            self.opaque@[k],
            self,
        )
        &&& forall|k: u64| #[trigger] self.alpha@.dom().contains(k) ==> rec_refs_ok(
            self.alpha@[k],
            self,
        )
        &&& forall|i: int|
            0 <= i < self.overlay@.len() ==> rec_wf(#[trigger] self.overlay@[i])
        &&& forall|i: int|
            0 <= i < self.overlay@.len() ==> rec_refs_ok(#[trigger] self.overlay@[i], self)
        &&& forall|i: int| 0 <= i < self.models@.len() ==> model_wf(#[trigger] self.models@[i])
        &&& pt_world(self.cam_pos)
        &&& 0 <= self.view_radius <= WORLD_BOUND
    }

    /// The handle currently resolves to a shape.
    pub open spec fn valid_handle(self, h: Handle) -> bool {
        match h {
            Handle::Opaque(k) => self.opaque@.dom().contains(k),
            Handle::Alpha(k) => self.alpha@.dom().contains(k),
            Handle::Overlay(i) => (i as int) < self.overlay@.len(),
        }
    }

    /// The record a valid handle resolves to.
    pub open spec fn spec_record(self, h: Handle) -> ShapeRec {
        match h {
            Handle::Opaque(k) => self.opaque@[k],
            Handle::Alpha(k) => self.alpha@[k],
            Handle::Overlay(i) => self.overlay@[i as int],
        }
    }

    /// An empty registry: no shapes, no resources, camera at the origin,
    /// fog off, black background, the whole world visible.
    pub fn new() -> (reg: Registry)
        ensures
            reg.wf(),
            reg.opaque@ == Map::<u64, ShapeRec>::empty(),
            reg.alpha@ == Map::<u64, ShapeRec>::empty(),
            reg.opaque.key_bound() == 0,
            reg.alpha.key_bound() == 0,
            reg.overlay@.len() == 0,
            reg.models@.len() == 0,
            reg.texcoords@.len() == 0,
            reg.gradients@.len() == 0,
            reg.textures@.len() == 0,
            reg.clear_color == (0i64, 0i64, 0i64),
            reg.fog is None,
            reg.cam_pos == origin_pt(),
            reg.cam_rot == origin_pt(),
            reg.view_radius == WORLD_BOUND,
            reg.size == (0u32, 0u32),
    {
        Registry {
            opaque: SpatialIndex::new(),
            alpha: SpatialIndex::new(),
            overlay: Vec::new(),
            models: Vec::new(),
            texcoords: Vec::new(),
            gradients: Vec::new(),
            textures: Vec::new(),
            clear_color: (0, 0, 0),
            fog: None,
            cam_pos: Point3 { x: 0, y: 0, z: 0 },
            cam_rot: Point3 { x: 0, y: 0, z: 0 },
            view_radius: WORLD_BOUND,
            size: (0, 0),
        }
    }

    /// Registers immutable geometry: a stream of four values per vertex
    /// and its triangle-fan ranges. Returns the model's id; computes the
    /// tight local bounds and their center.
    pub fn create_model(&mut self, vertices: &Vec<i64>, fans: Vec<(u32, u32)>) -> (m: ModelId)
        requires
            old(self).wf(),
            forall|i: int|
                0 <= i < vertices@.len() ==> -LOCAL_BOUND <= #[trigger] vertices@[i]
                    <= LOCAL_BOUND,
            old(self).models@.len() < usize::MAX,
        ensures
            final(self).wf(),
            m.0 == old(self).models@.len(),
            final(self).models@.len() == old(self).models@.len() + 1,
            forall|i: int|
                0 <= i < old(self).models@.len() ==> final(self).models@[i] == old(self).models@[i],
            final(self).models@[m.0 as int].vertex_count == vert_count(vertices@),
            is_model_bounds(final(self).models@[m.0 as int].local_box, vertices@),
            is_box_center(
                final(self).models@[m.0 as int].local_center,
                final(self).models@[m.0 as int].local_box,
            ),
            final(self).models@[m.0 as int].fans@ == fans@,
            final(self).opaque == old(self).opaque,
            final(self).alpha == old(self).alpha,
            final(self).overlay@ == old(self).overlay@,
            final(self).texcoords@ == old(self).texcoords@,
            final(self).gradients@ == old(self).gradients@,
            final(self).textures@ == old(self).textures@,
            final(self).clear_color == old(self).clear_color,
            final(self).fog == old(self).fog,
            final(self).cam_pos == old(self).cam_pos,
            final(self).cam_rot == old(self).cam_rot,
            final(self).view_radius == old(self).view_radius,
            final(self).size == old(self).size,
    {
        let count = vertices.len() / 4;
        let local_box: BBox;
        if count == 0 {
            local_box = BBox { min: Point3 { x: 0, y: 0, z: 0 }, max: Point3 { x: 0, y: 0, z: 0 } };
        } else {
            proof {
                assert(vert_x(vertices@, 0) == vertices@[0]);
                assert(vert_y(vertices@, 0) == vertices@[1]);
                assert(vert_z(vertices@, 0) == vertices@[2]);
            }
            let mut min_x = vertices[0];
            let mut max_x = vertices[0];
            let mut min_y = vertices[1];
            let mut max_y = vertices[1];
            let mut min_z = vertices[2];
            let mut max_z = vertices[2];
            let mut i: usize = 1;
            while i < count
                invariant
                    1 <= i <= count,
                    count == vert_count(vertices@),
                    4 * count <= vertices@.len(),
                    vertices@.len() <= usize::MAX,
                    forall|j: int|
                        0 <= j < vertices@.len() ==> -LOCAL_BOUND <= #[trigger] vertices@[j]
                            <= LOCAL_BOUND,
                    -LOCAL_BOUND <= min_x <= max_x <= LOCAL_BOUND,
                    -LOCAL_BOUND <= min_y <= max_y <= LOCAL_BOUND,
                    -LOCAL_BOUND <= min_z <= max_z <= LOCAL_BOUND,
                    forall|j: int| 0 <= j < i ==> min_x <= #[trigger] vert_x(vertices@, j)
                        <= max_x,
                    forall|j: int| 0 <= j < i ==> min_y <= #[trigger] vert_y(vertices@, j)
                        <= max_y,
                    forall|j: int| 0 <= j < i ==> min_z <= #[trigger] vert_z(vertices@, j)
                        <= max_z,
                    exists|j: int| 0 <= j < i && min_x == #[trigger] vert_x(vertices@, j),
                    exists|j: int| 0 <= j < i && max_x == #[trigger] vert_x(vertices@, j),
                    exists|j: int| 0 <= j < i && min_y == #[trigger] vert_y(vertices@, j),
                    exists|j: int| 0 <= j < i && max_y == #[trigger] vert_y(vertices@, j),
                    exists|j: int| 0 <= j < i && min_z == #[trigger] vert_z(vertices@, j),
                    exists|j: int| 0 <= j < i && max_z == #[trigger] vert_z(vertices@, j),
                decreases count - i,
            {
                let x = vertices[4 * i];
                let y = vertices[4 * i + 1];
                let z = vertices[4 * i + 2];
                proof {
                    assert(vert_x(vertices@, i as int) == vertices@[4 * (i as int)]);
                    assert(vert_y(vertices@, i as int) == vertices@[4 * (i as int) + 1]);
                    assert(vert_z(vertices@, i as int) == vertices@[4 * (i as int) + 2]);
                }
                min_x = min_i64(min_x, x);
                max_x = max_i64(max_x, x);
                min_y = min_i64(min_y, y);
                max_y = max_i64(max_y, y);
                min_z = min_i64(min_z, z);
                max_z = max_i64(max_z, z);
                i += 1;
            }
            local_box = BBox {
                min: Point3 { x: min_x, y: min_y, z: min_z },
                max: Point3 { x: max_x, y: max_y, z: max_z },
            };
        }
        proof {
            assert(is_model_bounds(local_box, vertices@));
            assert(box_local(local_box));
        }
        let local_center = box_center(&local_box);
        proof {
            assert(pt_local(local_center));
        }
        let m = ModelId(self.models.len());
        let info = ModelInfo {
            vertex_count: count,
            local_box,
            local_center,
            fans,
        };
        self.models.push(info);
        proof {
            lemma_tables_grow(*old(self), *self);
        }
        m
    }

    /// Registers a per-vertex color buffer by its value count (four values
    /// per vertex); the colors themselves live with the backend.
    pub fn create_gradient(&mut self, color_len: usize) -> (g: GradientId)
        requires
            old(self).wf(),
            old(self).gradients@.len() < usize::MAX,
        ensures
            final(self).wf(),
            g.0 == old(self).gradients@.len(),
            final(self).gradients@.len() == old(self).gradients@.len() + 1,
            forall|i: int|
                0 <= i < old(self).gradients@.len() ==> final(self).gradients@[i] == old(self).gradients@[i],
            final(self).gradients@[g.0 as int].vertex_count == color_len as int / 4,
            final(self).opaque == old(self).opaque,
            final(self).alpha == old(self).alpha,
            final(self).overlay@ == old(self).overlay@,
            final(self).models@ == old(self).models@,
            final(self).texcoords@ == old(self).texcoords@,
            final(self).textures@ == old(self).textures@,
            final(self).clear_color == old(self).clear_color,
            final(self).fog == old(self).fog,
            final(self).cam_pos == old(self).cam_pos,
            final(self).cam_rot == old(self).cam_rot,
            final(self).view_radius == old(self).view_radius,
            final(self).size == old(self).size,
    {
        let g = GradientId(self.gradients.len());
        self.gradients.push(AttrInfo { vertex_count: color_len / 4 });
        proof {
            lemma_tables_grow(*old(self), *self);
        }
        g
    }

    /// Registers a texture-coordinate buffer by its value count (four
    /// values per vertex); the coordinates themselves live with the
    /// backend.
    pub fn create_texcoords(&mut self, coord_len: usize) -> (t: TexCoordsId)
        requires
            old(self).wf(),
            old(self).texcoords@.len() < usize::MAX,
        ensures
            final(self).wf(),
            t.0 == old(self).texcoords@.len(),
            final(self).texcoords@.len() == old(self).texcoords@.len() + 1,
            forall|i: int|
                0 <= i < old(self).texcoords@.len() ==> final(self).texcoords@[i] == old(self).texcoords@[i],
            final(self).texcoords@[t.0 as int].vertex_count == coord_len as int / 4,
            final(self).opaque == old(self).opaque,
            final(self).alpha == old(self).alpha,
            final(self).overlay@ == old(self).overlay@,
            final(self).models@ == old(self).models@,
            final(self).gradients@ == old(self).gradients@,
            final(self).textures@ == old(self).textures@,
            final(self).clear_color == old(self).clear_color,
            final(self).fog == old(self).fog,
            final(self).cam_pos == old(self).cam_pos,
            final(self).cam_rot == old(self).cam_rot,
            final(self).view_radius == old(self).view_radius,
            final(self).size == old(self).size,
    {
        let t = TexCoordsId(self.texcoords.len());
        self.texcoords.push(AttrInfo { vertex_count: coord_len / 4 });
        proof {
            lemma_tables_grow(*old(self), *self);
        }
        t
    }

    /// Registers a texture by its dimensions; the pixels live with the
    /// backend.
    pub fn create_texture(&mut self, width: u32, height: u32) -> (t: TextureId)
        requires
            old(self).wf(),
            old(self).textures@.len() < usize::MAX,
        ensures
            final(self).wf(),
            t.0 == old(self).textures@.len(),
            final(self).textures@.len() == old(self).textures@.len() + 1,
            forall|i: int|
                0 <= i < old(self).textures@.len() ==> final(self).textures@[i] == old(self).textures@[i],
            final(self).textures@[t.0 as int] == (TextureInfo { width, height }),
            final(self).opaque == old(self).opaque,
            final(self).alpha == old(self).alpha,
            final(self).overlay@ == old(self).overlay@,
            final(self).models@ == old(self).models@,
            final(self).texcoords@ == old(self).texcoords@,
            final(self).gradients@ == old(self).gradients@,
            final(self).clear_color == old(self).clear_color,
            final(self).fog == old(self).fog,
            final(self).cam_pos == old(self).cam_pos,
            final(self).cam_rot == old(self).cam_rot,
            final(self).view_radius == old(self).view_radius,
            final(self).size == old(self).size,
    {
        let t = TextureId(self.textures.len());
        self.textures.push(TextureInfo { width, height });
        proof {
            lemma_tables_grow(*old(self), *self);
        }
        t
    }

    /// A texture's registered dimensions, for backends updating its
    /// pixels.
    pub fn texture_size(&self, t: TextureId) -> (wh: (u32, u32))
        requires
            t.0 < self.textures@.len(),
        ensures
            wh.0 == self.textures@[t.0 as int].width,
            wh.1 == self.textures@[t.0 as int].height,
    {
        let info = &self.textures[t.0];
        (info.width, info.height)
    }

    /// Sets the background color.
    pub fn set_clear_color(&mut self, color: (i64, i64, i64))
        requires
            old(self).wf(),
        ensures
            final(self).wf(),
            final(self).clear_color == color,
            *final(self) == (Registry { clear_color: color, ..*old(self) }),
    {
        self.clear_color = color;
    }

    /// Sets or clears the fog range.
    pub fn set_fog(&mut self, fog: Option<(i64, i64)>)
        requires
            old(self).wf(),
        ensures
            final(self).wf(),
            final(self).fog == fog,
            *final(self) == (Registry { fog, ..*old(self) }),
    {
        self.fog = fog;
    }

    /// Moves the camera: the eye position becomes the frustum reference
    /// point; the rotation is carried for the backend's view matrix.
    pub fn set_camera(&mut self, position: Point3, rotation: Point3)
        requires
            old(self).wf(),
            pt_world(position),
        ensures
            final(self).wf(),
            final(self).cam_pos == position,
            final(self).cam_rot == rotation,
            *final(self) == (Registry { cam_pos: position, cam_rot: rotation, ..*old(self) }),
    {
        self.cam_pos = position;
        self.cam_rot = rotation;
    }

    /// Sets the visibility radius of the derived frustum.
    pub fn set_view_radius(&mut self, radius: i64)
        requires
            old(self).wf(),
            0 <= radius <= WORLD_BOUND,
        ensures
            final(self).wf(),
            final(self).view_radius == radius,
            *final(self) == (Registry { view_radius: radius, ..*old(self) }),
    {
        self.view_radius = radius;
    }

    /// Records the viewport size.
    pub fn resize(&mut self, width: u32, height: u32)
        requires
            old(self).wf(),
        ensures
            final(self).wf(),
            final(self).size == (width, height),
            *final(self) == (Registry { size: (width, height), ..*old(self) }),
    {
        self.size = (width, height);
    }

    /// The viewport size.
    pub fn wh(&self) -> (wh: (u32, u32))
        ensures
            wh == self.size,
    {
        self.size
    }

    /// The frustum the current camera state derives: reference point at
    /// the eye, the registry's visibility radius around it.
    pub fn current_frustum(&self) -> (f: Frustum)
        requires
            self.wf(),
        ensures
            f.center == self.cam_pos,
            f.radius == self.view_radius,
            frustum_wf(f),
    {
        Frustum { center: self.cam_pos, radius: self.view_radius }
    }

    /// Whether the handle currently resolves to a shape.
    pub fn handle_valid(&self, h: &Handle) -> (r: bool)
        requires
            self.wf(),
        ensures
            r == self.valid_handle(*h),
    {
        match *h {
            Handle::Opaque(k) => self.opaque.contains_key(k),
            Handle::Alpha(k) => self.alpha.contains_key(k),
            Handle::Overlay(i) => i < self.overlay.len(),
        }
    }

    /// The record a valid handle resolves to.
    pub fn record(&self, h: &Handle) -> (r: &ShapeRec)
        requires
            self.wf(),
            self.valid_handle(*h),
        ensures
            *r == self.spec_record(*h),
            rec_wf(*r),
    {
        match *h {
            Handle::Opaque(k) => {
                proof {
                    self.opaque.lemma_recs_wf(k);
                }
                self.opaque.get(k)
            },
            Handle::Alpha(k) => {
                proof {
                    self.alpha.lemma_recs_wf(k);
                }
                self.alpha.get(k)
            },
            Handle::Overlay(i) => &self.overlay[i],
        }
    }

    /// Routes a finished record to its collection: overlay when it wants
    /// neither camera nor fog, else alpha when it blends, else opaque.
    fn place_shape(&mut self, rec: ShapeRec, blending: bool, fog: bool, camera: bool) -> (h:
        Handle)
        requires
            old(self).wf(),
            rec_wf(rec),
            rec_refs_ok(rec, *old(self)),
            old(self).opaque.key_bound() < u64::MAX,
            old(self).alpha.key_bound() < u64::MAX,
            old(self).overlay@.len() < usize::MAX,
        ensures
            final(self).wf(),
            final(self).valid_handle(h),
            placed_shape(*old(self), *final(self), h, rec, blending, fog, camera),
    {
        let ghost o = *old(self);
        let ghost grec = rec;
        if !camera && !fog {
            let i = self.overlay.len();
            self.overlay.push(rec);
            proof {
                assert forall|k: u64| #[trigger] self.opaque@.dom().contains(k)
                    implies rec_refs_ok(self.opaque@[k], *self) by {
                    assert(rec_refs_ok(o.opaque@[k], o));
                }
                assert forall|k: u64| #[trigger] self.alpha@.dom().contains(k)
                    implies rec_refs_ok(self.alpha@[k], *self) by {
                    assert(rec_refs_ok(o.alpha@[k], o));
                }
                assert forall|j: int| 0 <= j < self.overlay@.len() implies rec_wf(
                    #[trigger] self.overlay@[j],
                ) by {
                    if j < o.overlay@.len() {
                        assert(rec_wf(o.overlay@[j]));
                    }
                }
                assert forall|j: int| 0 <= j < self.overlay@.len() implies rec_refs_ok(
                    #[trigger] self.overlay@[j],
                    *self,
                ) by {
                    if j < o.overlay@.len() {
                        assert(rec_refs_ok(o.overlay@[j], o));
                    } else {
                        assert(self.overlay@[j] == grec);
                        assert(rec_refs_ok(grec, o));
                    }
                }
            }
            Handle::Overlay(i)
        } else if blending {
            let k = self.alpha.insert(rec);
            proof {
                assert forall|k2: u64| #[trigger] self.alpha@.dom().contains(k2)
                    implies rec_refs_ok(self.alpha@[k2], *self) by {
                    if k2 == k {
                        assert(self.alpha@[k2] == grec);
                        assert(rec_refs_ok(grec, o));
                    } else {
                        assert(o.alpha@.dom().contains(k2));
                        assert(self.alpha@[k2] == o.alpha@[k2]);
                        assert(rec_refs_ok(o.alpha@[k2], o));
                    }
                }
                assert forall|k2: u64| #[trigger] self.opaque@.dom().contains(k2)
                    implies rec_refs_ok(self.opaque@[k2], *self) by {
                    assert(rec_refs_ok(o.opaque@[k2], o));
                }
                assert forall|j: int| 0 <= j < self.overlay@.len() implies rec_refs_ok(
                    #[trigger] self.overlay@[j],
                    *self,
                ) by {
                    assert(rec_refs_ok(o.overlay@[j], o));
                }
            }
            Handle::Alpha(k)
        } else {
            let k = self.opaque.insert(rec);
            proof {
                assert forall|k2: u64| #[trigger] self.opaque@.dom().contains(k2)
                    implies rec_refs_ok(self.opaque@[k2], *self) by {
                    if k2 == k {
                        assert(self.opaque@[k2] == grec);
                        assert(rec_refs_ok(grec, o));
                    } else {
                        assert(o.opaque@.dom().contains(k2));
                        assert(self.opaque@[k2] == o.opaque@[k2]);
                        assert(rec_refs_ok(o.opaque@[k2], o));
                    }
                }
                assert forall|k2: u64| #[trigger] self.alpha@.dom().contains(k2)
                    implies rec_refs_ok(self.alpha@[k2], *self) by {
                    assert(rec_refs_ok(o.alpha@[k2], o));
                }
                assert forall|j: int| 0 <= j < self.overlay@.len() implies rec_refs_ok(
                    #[trigger] self.overlay@[j],
                    *self,
                ) by {
                    assert(rec_refs_ok(o.overlay@[j], o));
                }
            }
            Handle::Opaque(k)
        }
    }

    /// Creates a shape with a flat color and routes it by the
    /// blending/fog/camera flags; the derived bounding box is the model's
    /// local box carried through the transform.
    pub fn shape_solid(
        &mut self,
        model: ModelId,
        transform: Transform,
        color: Color,
        blending: bool,
        fog: bool,
        camera: bool,
    ) -> (h: Handle)
        requires
            old(self).wf(),
            model.0 < old(self).models@.len(),
            tf_wf(transform),
            old(self).opaque.key_bound() < u64::MAX,
            old(self).alpha.key_bound() < u64::MAX,
            old(self).overlay@.len() < usize::MAX,
        ensures
            final(self).wf(),
            final(self).valid_handle(h),
            placed_shape(
                *old(self),
                *final(self),
                h,
                final(self).spec_record(h),
                blending,
                fog,
                camera,
            ),
            solid_fields(final(self).spec_record(h), model, color, fog),
            rec_derived_ok(
                final(self).spec_record(h),
                transform,
                old(self).models@[model.0 as int],
            ),
    {
        proof {
            assert(model_wf(self.models@[model.0 as int]));
        }
        let mi_box = self.models[model.0].local_box;
        let mi_center = self.models[model.0].local_center;
        let fans = copy_fans(&self.models[model.0].fans);
        let bbox = world_box(&transform, &mi_box);
        let pos = apply_transform(&transform, mi_center);
        let rec = ShapeRec {
            style: ShapeStyle::Solid,
            model,
            texcoords: None,
            gradient: None,
            texture: None,
            alpha: None,
            color: Some(color),
            has_fog: fog,
            transform,
            bbox,
            pos,
            local_box: mi_box,
            local_center: mi_center,
            fans,
        };
        let ghost grec = rec;
        proof {
            assert(rec_wf(grec));
            assert(rec_refs_ok(grec, *old(self)));
        }
        let h = self.place_shape(rec, blending, fog, camera);
        proof {
            lemma_spec_record_of_placed(*old(self), *self, h, grec, blending, fog, camera);
        }
        h
    }

    /// Creates a gradient shape (one color per vertex); fails with
    /// `MismatchedAttributeCount` before any placement when the color
    /// buffer's vertex count differs from the model's.
    pub fn shape_gradient(
        &mut self,
        model: ModelId,
        transform: Transform,
        colors: GradientId,
        blending: bool,
        fog: bool,
        camera: bool,
    ) -> (res: Result<Handle, ShapeError>)
        requires
            old(self).wf(),
            model.0 < old(self).models@.len(),
            colors.0 < old(self).gradients@.len(),
            tf_wf(transform),
            old(self).opaque.key_bound() < u64::MAX,
            old(self).alpha.key_bound() < u64::MAX,
            old(self).overlay@.len() < usize::MAX,
        ensures
            final(self).wf(),
            res is Err <==> old(self).gradients@[colors.0 as int].vertex_count != old(self).models@[model.0 as int].vertex_count,
            res is Err ==> res == Result::<Handle, ShapeError>::Err(
                ShapeError::MismatchedAttributeCount,
            ) && *final(self) == *old(self),
            res matches Ok(h) ==> final(self).valid_handle(h) && placed_shape(
                *old(self),
                *final(self),
                h,
                final(self).spec_record(h),
                blending,
                fog,
                camera,
            ) && gradient_fields(final(self).spec_record(h), model, colors, fog)
                && rec_derived_ok(
                final(self).spec_record(h),
                transform,
                old(self).models@[model.0 as int],
            ),
    {
        if self.gradients[colors.0].vertex_count != self.models[model.0].vertex_count {
            return Err(ShapeError::MismatchedAttributeCount);
        }
        proof {
            assert(model_wf(self.models@[model.0 as int]));
        }
        let mi_box = self.models[model.0].local_box;
        let mi_center = self.models[model.0].local_center;
        let fans = copy_fans(&self.models[model.0].fans);
        let bbox = world_box(&transform, &mi_box);
        let pos = apply_transform(&transform, mi_center);
        let rec = ShapeRec {
            style: ShapeStyle::Gradient,
            model,
            texcoords: None,
            gradient: Some(colors),
            texture: None,
            alpha: None,
            color: None,
            has_fog: fog,
            transform,
            bbox,
            pos,
            local_box: mi_box,
            local_center: mi_center,
            fans,
        };
        let ghost grec = rec;
        proof {
            assert(rec_wf(grec));
            assert(rec_refs_ok(grec, *old(self)));
        }
        let h = self.place_shape(rec, blending, fog, camera);
        proof {
            lemma_spec_record_of_placed(*old(self), *self, h, grec, blending, fog, camera);
        }
        Ok(h)
    }

    /// Creates a textured shape; fails with `MismatchedAttributeCount`
    /// before any placement when the texture-coordinate buffer's vertex
    /// count differs from the model's.
    pub fn shape_texture(
        &mut self,
        model: ModelId,
        transform: Transform,
        texture: TextureId,
        tc: TexCoordsId,
        blending: bool,
        fog: bool,
        camera: bool,
    ) -> (res: Result<Handle, ShapeError>)
        requires
            old(self).wf(),
            model.0 < old(self).models@.len(),
            texture.0 < old(self).textures@.len(),
            tc.0 < old(self).texcoords@.len(),
            tf_wf(transform),
            old(self).opaque.key_bound() < u64::MAX,
            old(self).alpha.key_bound() < u64::MAX,
            old(self).overlay@.len() < usize::MAX,
        ensures
            final(self).wf(),
            res is Err <==> old(self).texcoords@[tc.0 as int].vertex_count != old(self).models@[model.0 as int].vertex_count,
            res is Err ==> res == Result::<Handle, ShapeError>::Err(
                ShapeError::MismatchedAttributeCount,
            ) && *final(self) == *old(self),
            res matches Ok(h) ==> final(self).valid_handle(h) && placed_shape(
                *old(self),
                *final(self),
                h,
                final(self).spec_record(h),
                blending,
                fog,
                camera,
            ) && texture_fields(final(self).spec_record(h), model, texture, tc, fog)
                && rec_derived_ok(
                final(self).spec_record(h),
                transform,
                old(self).models@[model.0 as int],
            ),
    {
        if self.texcoords[tc.0].vertex_count != self.models[model.0].vertex_count {
            return Err(ShapeError::MismatchedAttributeCount);
        }
        proof {
            assert(model_wf(self.models@[model.0 as int]));
        }
        let mi_box = self.models[model.0].local_box;
        let mi_center = self.models[model.0].local_center;
        let fans = copy_fans(&self.models[model.0].fans);
        let bbox = world_box(&transform, &mi_box);
        let pos = apply_transform(&transform, mi_center);
        let rec = ShapeRec {
            style: ShapeStyle::Texture,
            model,
            texcoords: Some(tc),
            gradient: None,
            texture: Some(texture),
            alpha: None,
            color: None,
            has_fog: fog,
            transform,
            bbox,
            pos,
            local_box: mi_box,
            local_center: mi_center,
            fans,
        };
        let ghost grec = rec;
        proof {
            assert(rec_wf(grec));
            assert(rec_refs_ok(grec, *old(self)));
        }
        let h = self.place_shape(rec, blending, fog, camera);
        proof {
            lemma_spec_record_of_placed(*old(self), *self, h, grec, blending, fog, camera);
        }
        Ok(h)
    }

    /// Creates a faded shape (texture with scalar alpha); it always
    /// blends, so it routes to overlay or alpha, never opaque. Fails with
    /// `MismatchedAttributeCount` before any placement when the
    /// texture-coordinate buffer's vertex count differs from the model's.
    pub fn shape_faded(
        &mut self,
        model: ModelId,
        transform: Transform,
        texture: TextureId,
        tc: TexCoordsId,
        alpha: i64,
        fog: bool,
        camera: bool,
    ) -> (res: Result<Handle, ShapeError>)
        requires
            old(self).wf(),
            model.0 < old(self).models@.len(),
            texture.0 < old(self).textures@.len(),
            tc.0 < old(self).texcoords@.len(),
            tf_wf(transform),
            old(self).opaque.key_bound() < u64::MAX,
            old(self).alpha.key_bound() < u64::MAX,
            old(self).overlay@.len() < usize::MAX,
        ensures
            final(self).wf(),
            res is Err <==> old(self).texcoords@[tc.0 as int].vertex_count != old(self).models@[model.0 as int].vertex_count,
            res is Err ==> res == Result::<Handle, ShapeError>::Err(
                ShapeError::MismatchedAttributeCount,
            ) && *final(self) == *old(self),
            res matches Ok(h) ==> final(self).valid_handle(h) && placed_shape(
                *old(self),
                *final(self),
                h,
                final(self).spec_record(h),
                true,
                fog,
                camera,
            ) && faded_fields(final(self).spec_record(h), model, texture, tc, alpha, fog)
                && rec_derived_ok(
                final(self).spec_record(h),
                transform,
                old(self).models@[model.0 as int],
            ),
    {
        if self.texcoords[tc.0].vertex_count != self.models[model.0].vertex_count {
            return Err(ShapeError::MismatchedAttributeCount);
        }
        proof {
            assert(model_wf(self.models@[model.0 as int]));
        }
        let mi_box = self.models[model.0].local_box;
        let mi_center = self.models[model.0].local_center;
        let fans = copy_fans(&self.models[model.0].fans);
        let bbox = world_box(&transform, &mi_box);
        let pos = apply_transform(&transform, mi_center);
        let rec = ShapeRec {
            style: ShapeStyle::Faded,
            model,
            texcoords: Some(tc),
            gradient: None,
            texture: Some(texture),
            alpha: Some(alpha),
            color: None,
            has_fog: fog,
            transform,
            bbox,
            pos,
            local_box: mi_box,
            local_center: mi_center,
            fans,
        };
        let ghost grec = rec;
        proof {
            assert(rec_wf(grec));
            assert(rec_refs_ok(grec, *old(self)));
        }
        let h = self.place_shape(rec, true, fog, camera);
        proof {
            lemma_spec_record_of_placed(*old(self), *self, h, grec, true, fog, camera);
        }
        Ok(h)
    }

    /// Creates a tinted shape (texture with flat tint); fails with
    /// `MismatchedAttributeCount` before any placement when the
    /// texture-coordinate buffer's vertex count differs from the model's.
    pub fn shape_tinted(
        &mut self,
        model: ModelId,
        transform: Transform,
        texture: TextureId,
        tc: TexCoordsId,
        tint: Color,
        blending: bool,
        fog: bool,
        camera: bool,
    ) -> (res: Result<Handle, ShapeError>)
        requires
            old(self).wf(),
            model.0 < old(self).models@.len(),
            texture.0 < old(self).textures@.len(),
            tc.0 < old(self).texcoords@.len(),
            tf_wf(transform),
            old(self).opaque.key_bound() < u64::MAX,
            old(self).alpha.key_bound() < u64::MAX,
            old(self).overlay@.len() < usize::MAX,
        ensures
            final(self).wf(),
            res is Err <==> old(self).texcoords@[tc.0 as int].vertex_count != old(self).models@[model.0 as int].vertex_count,
            res is Err ==> res == Result::<Handle, ShapeError>::Err(
                ShapeError::MismatchedAttributeCount,
            ) && *final(self) == *old(self),
            res matches Ok(h) ==> final(self).valid_handle(h) && placed_shape(
                *old(self),
                *final(self),
                h,
                final(self).spec_record(h),
                blending,
                fog,
                camera,
            ) && tinted_fields(final(self).spec_record(h), model, texture, tc, tint, fog)
                && rec_derived_ok(
                final(self).spec_record(h),
                transform,
                old(self).models@[model.0 as int],
            ),
    {
        if self.texcoords[tc.0].vertex_count != self.models[model.0].vertex_count {
            return Err(ShapeError::MismatchedAttributeCount);
        }
        proof {
            assert(model_wf(self.models@[model.0 as int]));
        }
        let mi_box = self.models[model.0].local_box;
        let mi_center = self.models[model.0].local_center;
        let fans = copy_fans(&self.models[model.0].fans);
        let bbox = world_box(&transform, &mi_box);
        let pos = apply_transform(&transform, mi_center);
        let rec = ShapeRec {
            style: ShapeStyle::Tinted,
            model,
            texcoords: Some(tc),
            gradient: None,
            texture: Some(texture),
            alpha: None,
            color: Some(tint),
            has_fog: fog,
            transform,
            bbox,
            pos,
            local_box: mi_box,
            local_center: mi_center,
            fans,
        };
        let ghost grec = rec;
        proof {
            assert(rec_wf(grec));
            assert(rec_refs_ok(grec, *old(self)));
        }
        let h = self.place_shape(rec, blending, fog, camera);
        proof {
            lemma_spec_record_of_placed(*old(self), *self, h, grec, blending, fog, camera);
        }
        Ok(h)
    }

    /// Creates a complex shape (texture with one tint per vertex); fails
    /// with `MismatchedAttributeCount` before any placement when either
    /// auxiliary buffer's vertex count differs from the model's.
    pub fn shape_complex(
        &mut self,
        model: ModelId,
        transform: Transform,
        texture: TextureId,
        tc: TexCoordsId,
        tints: GradientId,
        blending: bool,
        fog: bool,
        camera: bool,
    ) -> (res: Result<Handle, ShapeError>)
        requires
            old(self).wf(),
            model.0 < old(self).models@.len(),
            texture.0 < old(self).textures@.len(),
            tc.0 < old(self).texcoords@.len(),
            tints.0 < old(self).gradients@.len(),
            tf_wf(transform),
            old(self).opaque.key_bound() < u64::MAX,
            old(self).alpha.key_bound() < u64::MAX,
            old(self).overlay@.len() < usize::MAX,
        ensures
            final(self).wf(),
            res is Err <==> (old(self).texcoords@[tc.0 as int].vertex_count != old(self).models@[model.0 as int].vertex_count || old(self).gradients@[tints.0 as int].vertex_count
                != old(self).models@[model.0 as int].vertex_count),
            res is Err ==> res == Result::<Handle, ShapeError>::Err(
                ShapeError::MismatchedAttributeCount,
            ) && *final(self) == *old(self),
            res matches Ok(h) ==> final(self).valid_handle(h) && placed_shape(
                *old(self),
                *final(self),
                h,
                final(self).spec_record(h),
                blending,
                fog,
                camera,
            ) && complex_fields(final(self).spec_record(h), model, texture, tc, tints, fog)
                && rec_derived_ok(
                final(self).spec_record(h),
                transform,
                old(self).models@[model.0 as int],
            ),
    {
        if self.texcoords[tc.0].vertex_count != self.models[model.0].vertex_count {
            return Err(ShapeError::MismatchedAttributeCount);
        }
        if self.gradients[tints.0].vertex_count != self.models[model.0].vertex_count {
            return Err(ShapeError::MismatchedAttributeCount);
        }
        proof {
            assert(model_wf(self.models@[model.0 as int]));
        }
        let mi_box = self.models[model.0].local_box;
        let mi_center = self.models[model.0].local_center;
        let fans = copy_fans(&self.models[model.0].fans);
        let bbox = world_box(&transform, &mi_box);
        let pos = apply_transform(&transform, mi_center);
        let rec = ShapeRec {
            style: ShapeStyle::Complex,
            model,
            texcoords: Some(tc),
            gradient: Some(tints),
            texture: Some(texture),
            alpha: None,
            color: None,
            has_fog: fog,
            transform,
            bbox,
            pos,
            local_box: mi_box,
            local_center: mi_center,
            fans,
        };
        let ghost grec = rec;
        proof {
            assert(rec_wf(grec));
            assert(rec_refs_ok(grec, *old(self)));
        }
        let h = self.place_shape(rec, blending, fog, camera);
        proof {
            lemma_spec_record_of_placed(*old(self), *self, h, grec, blending, fog, camera);
        }
        Ok(h)
    }

    /// Rewrites a shape's transform and recomputes its bounding box and
    /// reference point from the model's local geometry. An overlay shape
    /// is rewritten in place; an opaque or alpha shape may change bucket,
    /// so it is removed and reinserted under a fresh key, and the handle's
    /// stored key is overwritten — the handle stays valid, the raw key
    /// beneath it does not.
    pub fn set_transform(&mut self, h: &mut Handle, transform: Transform)
        requires
            old(self).wf(),
            tf_wf(transform),
            old(self).valid_handle(*old(h)),
            old(self).opaque.key_bound() < u64::MAX,
            old(self).alpha.key_bound() < u64::MAX,
        ensures
            final(self).wf(),
            same_tables(*old(self), *final(self)),
            final(self).valid_handle(*final(h)),
            is_retransformed(
                final(self).spec_record(*final(h)),
                old(self).spec_record(*old(h)),
                transform,
            ),
            *old(h) matches Handle::Overlay(i) ==> {
                &&& *final(h) == *old(h)
                &&& final(self).overlay@.len() == old(self).overlay@.len()
                &&& forall|j: int|
                    0 <= j < old(self).overlay@.len() && j != i as int ==> final(self).overlay@[j] == old(self).overlay@[j]
                &&& final(self).opaque == old(self).opaque
                &&& final(self).alpha == old(self).alpha
            },
            *old(h) matches Handle::Opaque(k) ==> {
                &&& *final(h) == Handle::Opaque(old(self).opaque.key_bound())
                &&& !old(self).opaque@.dom().contains(old(self).opaque.key_bound())
                &&& final(self).opaque@.remove(old(self).opaque.key_bound()) == old(self).opaque@.remove(k)
                &&& final(self).opaque.key_bound() == old(self).opaque.key_bound() + 1
                &&& final(self).alpha == old(self).alpha
                &&& final(self).overlay@ == old(self).overlay@
            },
            *old(h) matches Handle::Alpha(k) ==> {
                &&& *final(h) == Handle::Alpha(old(self).alpha.key_bound())
                &&& !old(self).alpha@.dom().contains(old(self).alpha.key_bound())
                &&& final(self).alpha@.remove(old(self).alpha.key_bound()) == old(self).alpha@.remove(k)
                &&& final(self).alpha.key_bound() == old(self).alpha.key_bound() + 1
                &&& final(self).opaque == old(self).opaque
                &&& final(self).overlay@ == old(self).overlay@
            },
    {
        let ghost o = *old(self);
        match *h {
            Handle::Overlay(i) => {
                proof {
                    assert(rec_wf(self.overlay@[i as int]));
                }
                let bbox = world_box(&transform, &self.overlay[i].local_box);
                let pos = apply_transform(&transform, self.overlay[i].local_center);
                let r0 = &self.overlay[i];
                let rec2 = ShapeRec {
                    style: r0.style,
                    model: r0.model,
                    texcoords: r0.texcoords,
                    gradient: r0.gradient,
                    texture: r0.texture,
                    alpha: r0.alpha,
                    color: r0.color,
                    has_fog: r0.has_fog,
                    transform,
                    bbox,
                    pos,
                    local_box: r0.local_box,
                    local_center: r0.local_center,
                    fans: copy_fans(&r0.fans),
                };
                let ghost grec = rec2;
                proof {
                    assert(rec_wf(grec));
                    assert(is_retransformed(grec, o.overlay@[i as int], transform));
                }
                self.overlay.set(i, rec2);
                proof {
                    assert forall|k2: u64| #[trigger] self.opaque@.dom().contains(k2)
                        implies rec_refs_ok(self.opaque@[k2], *self) by {
                        assert(rec_refs_ok(o.opaque@[k2], o));
                    }
                    assert forall|k2: u64| #[trigger] self.alpha@.dom().contains(k2)
                        implies rec_refs_ok(self.alpha@[k2], *self) by {
                        assert(rec_refs_ok(o.alpha@[k2], o));
                    }
                    assert forall|j: int| 0 <= j < self.overlay@.len() implies rec_wf(
                        #[trigger] self.overlay@[j],
                    ) by {
                        if j != i as int {
                            assert(rec_wf(o.overlay@[j]));
                        }
                    }
                    assert forall|j: int| 0 <= j < self.overlay@.len() implies rec_refs_ok(
                        #[trigger] self.overlay@[j],
                        *self,
                    ) by {
                        if j != i as int {
                            assert(rec_refs_ok(o.overlay@[j], o));
                        } else {
                            assert(rec_refs_ok(o.overlay@[j], o));
                            assert(self.overlay@[j] == grec);
                        }
                    }
                }
            },
            Handle::Opaque(k) => {
                proof {
                    self.opaque.lemma_dom_below_bound();
                }
                let rec = self.opaque.remove(k);
                let bbox = world_box(&transform, &rec.local_box);
                let pos = apply_transform(&transform, rec.local_center);
                let rec2 = ShapeRec {
                    style: rec.style,
                    model: rec.model,
                    texcoords: rec.texcoords,
                    gradient: rec.gradient,
                    texture: rec.texture,
                    alpha: rec.alpha,
                    color: rec.color,
                    has_fog: rec.has_fog,
                    transform,
                    bbox,
                    pos,
                    local_box: rec.local_box,
                    local_center: rec.local_center,
                    fans: rec.fans,
                };
                let ghost grec = rec2;
                proof {
                    assert(rec_wf(grec));
                    assert(is_retransformed(grec, o.opaque@[k], transform));
                }
                let k2 = self.opaque.insert(rec2);
                *h = Handle::Opaque(k2);
                proof {
                    assert(self.opaque@.remove(k2) =~= o.opaque@.remove(k));
                    assert forall|k3: u64| #[trigger] self.opaque@.dom().contains(k3)
                        implies rec_refs_ok(self.opaque@[k3], *self) by {
                        if k3 == k2 {
                            assert(self.opaque@[k3] == grec);
                            assert(rec_refs_ok(o.opaque@[k], o));
                        } else {
                            assert(o.opaque@.dom().contains(k3));
                            assert(self.opaque@[k3] == o.opaque@[k3]);
                            assert(rec_refs_ok(o.opaque@[k3], o));
                        }
                    }
                    assert forall|k3: u64| #[trigger] self.alpha@.dom().contains(k3)
                        implies rec_refs_ok(self.alpha@[k3], *self) by {
                        assert(rec_refs_ok(o.alpha@[k3], o));
                    }
                    assert forall|j: int| 0 <= j < self.overlay@.len() implies rec_refs_ok(
                        #[trigger] self.overlay@[j],
                        *self,
                    ) by {
                        assert(rec_refs_ok(o.overlay@[j], o));
                    }
                }
            },
            Handle::Alpha(k) => {
                proof {
                    self.alpha.lemma_dom_below_bound();
                }
                let rec = self.alpha.remove(k);
                let bbox = world_box(&transform, &rec.local_box);
                let pos = apply_transform(&transform, rec.local_center);
                let rec2 = ShapeRec {
                    style: rec.style,
                    model: rec.model,
                    texcoords: rec.texcoords,
                    gradient: rec.gradient,
                    texture: rec.texture,
                    alpha: rec.alpha,
                    color: rec.color,
                    has_fog: rec.has_fog,
                    transform,
                    bbox,
                    pos,
                    local_box: rec.local_box,
                    local_center: rec.local_center,
                    fans: rec.fans,
                };
                let ghost grec = rec2;
                proof {
                    assert(rec_wf(grec));
                    assert(is_retransformed(grec, o.alpha@[k], transform));
                }
                let k2 = self.alpha.insert(rec2);
                *h = Handle::Alpha(k2);
                proof {
                    assert(self.alpha@.remove(k2) =~= o.alpha@.remove(k));
                    assert forall|k3: u64| #[trigger] self.alpha@.dom().contains(k3)
                        implies rec_refs_ok(self.alpha@[k3], *self) by {
                        if k3 == k2 {
                            assert(self.alpha@[k3] == grec);
                            assert(rec_refs_ok(o.alpha@[k], o));
                        } else {
                            assert(o.alpha@.dom().contains(k3));
                            assert(self.alpha@[k3] == o.alpha@[k3]);
                            assert(rec_refs_ok(o.alpha@[k3], o));
                        }
                    }
                    assert forall|k3: u64| #[trigger] self.opaque@.dom().contains(k3)
                        implies rec_refs_ok(self.opaque@[k3], *self) by {
                        assert(rec_refs_ok(o.opaque@[k3], o));
                    }
                    assert forall|j: int| 0 <= j < self.overlay@.len() implies rec_refs_ok(
                        #[trigger] self.overlay@[j],
                        *self,
                    ) by {
                        assert(rec_refs_ok(o.overlay@[j], o));
                    }
                }
            },
        }
    }
}

/// Every shape a well-formed registry holds keeps the bounding-box
/// invariant: its stored box is its transform applied to its model's local
/// box, and its reference point is the transform applied to the model's
/// local center — after creation and after every transform update.
pub proof fn lemma_bbox_invariant(reg: Registry, h: Handle)
    requires
        reg.wf(),
        reg.valid_handle(h),
    ensures
        reg.spec_record(h).model.0 < reg.models@.len(),
        is_world_box(
            reg.spec_record(h).bbox,
            reg.spec_record(h).transform,
            reg.models@[reg.spec_record(h).model.0 as int].local_box,
        ),
        is_apply(
            reg.spec_record(h).pos,
            reg.spec_record(h).transform,
            reg.models@[reg.spec_record(h).model.0 as int].local_center,
        ),
{
    match h {
        Handle::Opaque(k) => {
            reg.opaque.lemma_recs_wf(k);
        },
        Handle::Alpha(k) => {
            reg.alpha.lemma_recs_wf(k);
        },
        Handle::Overlay(i) => {
            assert(rec_wf(reg.overlay@[i as int]));
        },
    }
}

/// After a placement, the handle resolves to the record that was placed.
proof fn lemma_spec_record_of_placed(
    o: Registry,
    n: Registry,
    h: Handle,
    rec: ShapeRec,
    blending: bool,
    fog: bool,
    camera: bool,
)
    requires
        placed_shape(o, n, h, rec, blending, fog, camera),
        o.overlay@.len() < usize::MAX,
    ensures
        n.spec_record(h) == rec,
        placed_shape(o, n, h, n.spec_record(h), blending, fog, camera),
{
    if !camera && !fog {
        assert(h == Handle::Overlay(o.overlay@.len() as usize));
        assert(n.overlay@[o.overlay@.len() as int] == rec);
    } else if blending {
        assert(h == Handle::Alpha(o.alpha.key_bound()));
        assert(n.alpha@[o.alpha.key_bound()] == rec);
    } else {
        assert(h == Handle::Opaque(o.opaque.key_bound()));
        assert(n.opaque@[o.opaque.key_bound()] == rec);
    }
}

/// Growing a resource table touches no stored shape's consistency: every
/// reference that resolved before still resolves to the same entry.
proof fn lemma_tables_grow(o: Registry, n: Registry)
    requires
        o.wf(),
        n.opaque == o.opaque,
        n.alpha == o.alpha,
        n.overlay@ == o.overlay@,
        o.models@.len() <= n.models@.len(),
        forall|i: int| 0 <= i < o.models@.len() ==> n.models@[i] == o.models@[i],
        forall|i: int|
            o.models@.len() <= i < n.models@.len() ==> model_wf(#[trigger] n.models@[i]),
        o.texcoords@.len() <= n.texcoords@.len(),
        forall|i: int| 0 <= i < o.texcoords@.len() ==> n.texcoords@[i] == o.texcoords@[i],
        o.gradients@.len() <= n.gradients@.len(),
        forall|i: int| 0 <= i < o.gradients@.len() ==> n.gradients@[i] == o.gradients@[i],
        o.textures@.len() <= n.textures@.len(),
        forall|i: int| 0 <= i < o.textures@.len() ==> n.textures@[i] == o.textures@[i],
        n.cam_pos == o.cam_pos,
        n.view_radius == o.view_radius,
    ensures
        n.wf(),
{
    assert forall|i: int| 0 <= i < n.models@.len() implies model_wf(
        #[trigger] n.models@[i],
    ) by {
        if i < o.models@.len() {
            assert(model_wf(o.models@[i]));
        }
    }
    assert forall|k: u64| #[trigger] n.opaque@.dom().contains(k) implies rec_refs_ok(
        n.opaque@[k],
        n,
    ) by {
        assert(rec_refs_ok(o.opaque@[k], o));
    }
    assert forall|k: u64| #[trigger] n.alpha@.dom().contains(k) implies rec_refs_ok(
        n.alpha@[k],
        n,
    ) by {
        assert(rec_refs_ok(o.alpha@[k], o));
    }
    assert forall|i: int| 0 <= i < n.overlay@.len() implies rec_refs_ok(
        #[trigger] n.overlay@[i],
        n,
    ) by {
        assert(rec_refs_ok(o.overlay@[i], o));
    }
}

} // verus!
