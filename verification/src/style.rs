//! Style dispatch: turning one shape record into the exact sequence of
//! backend binding and draw operations it needs.
//!
//! Binding is gated on resource *presence* in the record, not on the style
//! tag, so a new style that declares existing resources needs no change
//! here; `presence_matches` (kept by every stored record) ties presence back
//! to each style's declaration.

use vstd::prelude::*;

use crate::geom::Transform;
use crate::shape::{style_decl, Color, GradientId, ShapeRec, ShapeStyle, StyleDecl, TexCoordsId,
    TextureId};

verus! {

/// One abstract backend operation of a shape's draw sequence.
#[derive(Clone, Copy, Debug, PartialEq, Eq, Structural)]
pub enum BindCmd {
    /// Select the style's program.
    UseStyle(ShapeStyle),
    /// Push the shape's transform to the model-matrix uniform.
    SetTransform(Transform),
    /// Bind the texture-coordinate vertex attribute.
    BindTexCoords(TexCoordsId),
    /// Bind the per-vertex color attribute.
    BindGradient(GradientId),
    /// Bind the texture sampler.
    BindTexture(TextureId),
    /// Push the scalar alpha uniform.
    SetAlpha(i64),
    /// Push the flat color uniform.
    SetColor(Color),
    /// Enable or disable fog for this shape.
    SetFog(bool),
    /// Draw one triangle fan over the half-open vertex range.
    DrawFan(u32, u32),
}

/// The fixed part of a record's draw sequence: program and transform, then
/// one binding for each resource the record carries, then the fog switch.
pub open spec fn plan_head(r: ShapeRec) -> Seq<BindCmd> {
    seq![BindCmd::UseStyle(r.style), BindCmd::SetTransform(r.transform)]
        + (match r.texcoords {
            Some(tc) => seq![BindCmd::BindTexCoords(tc)],
            None => Seq::empty(),
        })
        + (match r.gradient {
            Some(g) => seq![BindCmd::BindGradient(g)],
            None => Seq::empty(),
        })
        + (match r.texture {
            Some(t) => seq![BindCmd::BindTexture(t)],
            None => Seq::empty(),
        })
        + (match r.alpha {
            Some(a) => seq![BindCmd::SetAlpha(a)],
            None => Seq::empty(),
        })
        + (match r.color {
            Some(c) => seq![BindCmd::SetColor(c)],
            None => Seq::empty(),
        })
        + seq![BindCmd::SetFog(r.has_fog)]
}

/// The full draw sequence: the head, then one draw per fan range, in order.
pub open spec fn plan_spec(r: ShapeRec) -> Seq<BindCmd> {
    plan_head(r) + r.fans@.map_values(|f: (u32, u32)| BindCmd::DrawFan(f.0, f.1))
}

/// The resource declaration of a style, as a value.
pub fn decl_of(s: ShapeStyle) -> (d: StyleDecl)
    ensures
        d == style_decl(s),
{
    match s {
        ShapeStyle::Gradient => StyleDecl {
            uses_texcoords: false,
            uses_gradient: true,
            uses_texture: false,
            uses_alpha: false,
            uses_color: false,
        },
        ShapeStyle::Texture => StyleDecl {
            uses_texcoords: true,
            uses_gradient: false,
            uses_texture: true,
            uses_alpha: false,
            uses_color: false,
        },
        ShapeStyle::Faded => StyleDecl {
            uses_texcoords: true,
            uses_gradient: false,
            uses_texture: true,
            uses_alpha: true,
            uses_color: false,
        },
        ShapeStyle::Tinted => StyleDecl {
            uses_texcoords: true,
            uses_gradient: false,
            uses_texture: true,
            uses_alpha: false,
            uses_color: true,
        },
        ShapeStyle::Solid => StyleDecl {
            uses_texcoords: false,
            uses_gradient: false,
            uses_texture: false,
            uses_alpha: false,
            uses_color: false,
        },
        ShapeStyle::Complex => StyleDecl {
            uses_texcoords: true,
            uses_gradient: true,
            uses_texture: true,
            uses_alpha: false,
            uses_color: false,
        },
    }
}

/// The draw sequence of one record: exactly the resources present in the
/// record are bound, then its fan ranges are drawn in order.
pub fn draw_plan(r: &ShapeRec) -> (v: Vec<BindCmd>)
    ensures
        v@ == plan_spec(*r),
{
    let mut v: Vec<BindCmd> = Vec::new();
    v.push(BindCmd::UseStyle(r.style));
    v.push(BindCmd::SetTransform(r.transform));
    if let Some(tc) = r.texcoords {
        v.push(BindCmd::BindTexCoords(tc));
    }
    if let Some(g) = r.gradient {
        v.push(BindCmd::BindGradient(g));
    }
    if let Some(t) = r.texture {
        v.push(BindCmd::BindTexture(t));
    }
    if let Some(a) = r.alpha {
        v.push(BindCmd::SetAlpha(a));
    }
    if let Some(c) = r.color {
        v.push(BindCmd::SetColor(c));
    }
    v.push(BindCmd::SetFog(r.has_fog));
    proof {
        assert(v@ =~= plan_head(*r));
    }
    let ghost head_len = v@.len();
    let n = r.fans.len();
    for i in 0..n
        invariant
            n == r.fans.len(),
            v@.len() == head_len + i,
            v@ =~= plan_head(*r) + r.fans@.subrange(0, i as int).map_values(
                |f: (u32, u32)| BindCmd::DrawFan(f.0, f.1),
            ),
    {
        let f = r.fans[i];
        v.push(BindCmd::DrawFan(f.0, f.1));
        proof {
            assert(r.fans@.subrange(0, i + 1).map_values(
                |f: (u32, u32)| BindCmd::DrawFan(f.0, f.1),
            ) =~= r.fans@.subrange(0, i as int).map_values(
                |f: (u32, u32)| BindCmd::DrawFan(f.0, f.1),
            ) + seq![BindCmd::DrawFan(f.0, f.1)]);
        }
    }
    proof {
        assert(r.fans@.subrange(0, r.fans@.len() as int) =~= r.fans@);
        assert(v@ =~= plan_spec(*r));
    }
    v
}

} // verus!
