//! The per-frame render-queue composer: derives the camera frustum, queries
//! both spatial indices in the orders their passes require, and emits the
//! draw sequence — opaque front-to-back under depth testing, alpha
//! back-to-front, then the overlay list in insertion order with the camera
//! signalled off.
//!
//! The frustum and both orderings are recomputed every frame: shapes and
//! the camera may both move between frames.

use vstd::prelude::*;

use crate::frustum::Frustum;
use crate::index::{is_far_order, is_near_order};
use crate::registry::Registry;

verus! {

/// One frame's draw sequence, by pass, in submission order.
pub struct FramePlan {
    /// The frustum this plan was composed against.
    pub frustum: Frustum,
    /// Opaque-pass keys, front-to-back.
    pub opaque: Vec<u64>,
    /// Alpha-pass keys, back-to-front: the one ordering blending
    /// correctness depends on.
    pub alpha: Vec<u64>,
    /// Overlay slots, in insertion order.
    pub overlay: Vec<usize>,
}

/// One abstract operation of the frame sequence.
#[derive(Clone, Copy, Debug, PartialEq, Eq, Structural)]
pub enum FrameCmd {
    /// Signal every style that a camera is (or is no longer) active.
    CameraActive(bool),
    /// Enable or disable depth testing.
    DepthTest(bool),
    /// Draw the opaque shape under this key.
    DrawOpaque(u64),
    /// Draw the alpha shape under this key.
    DrawAlpha(u64),
    /// Draw the overlay shape in this slot.
    DrawOverlay(usize),
}

/// The overlay draw order: every slot, in insertion order. It depends on
/// nothing but how many overlay shapes exist — in particular not on the
/// camera.
pub open spec fn overlay_order(n: int) -> Seq<usize> {
    Seq::new(n as nat, |i: int| i as usize)
}

/// The fixed phase sequence of one frame around a plan's three draw lists:
/// camera on and depth testing for the two spatial passes, both off for
/// the overlay pass.
pub open spec fn frame_cmds(p: FramePlan) -> Seq<FrameCmd> {
    seq![FrameCmd::CameraActive(true), FrameCmd::DepthTest(true)]
        + p.opaque@.map_values(|k: u64| FrameCmd::DrawOpaque(k))
        + p.alpha@.map_values(|k: u64| FrameCmd::DrawAlpha(k))
        + seq![FrameCmd::DepthTest(false), FrameCmd::CameraActive(false)]
        + p.overlay@.map_values(|i: usize| FrameCmd::DrawOverlay(i))
}

/// Composes one frame: the frustum derived from the current camera, the
/// opaque keys front-to-back, the alpha keys back-to-front, and every
/// overlay slot in insertion order.
pub fn compose_frame(reg: &Registry) -> (p: FramePlan)
    requires
        reg.wf(),
    ensures
        p.frustum == (Frustum { center: reg.cam_pos, radius: reg.view_radius }),
        is_near_order(reg.opaque@, p.frustum, p.opaque@),
        is_far_order(reg.alpha@, p.frustum, p.alpha@),
        p.overlay@ == overlay_order(reg.overlay@.len() as int),
{
    let f = reg.current_frustum();
    let opaque = reg.opaque.ordered_near(&f);
    let alpha = reg.alpha.ordered_far(&f);
    let n = reg.overlay.len();
    let mut overlay: Vec<usize> = Vec::new();
    let mut i: usize = 0;
    while i < n
        invariant
            i <= n,
            overlay@.len() == i,
            forall|j: int| 0 <= j < i ==> overlay@[j] == j,
        decreases n - i,
    {
        overlay.push(i);
        i += 1;
    }
    proof {
        assert(overlay@ =~= overlay_order(reg.overlay@.len() as int));
    }
    FramePlan { frustum: f, opaque, alpha, overlay }
}

/// The full command sequence of a plan: the fixed phase switches around
/// the three draw lists, in submission order.
pub fn plan_commands(p: &FramePlan) -> (v: Vec<FrameCmd>)
    ensures
        v@ == frame_cmds(*p),
{
    let mut v: Vec<FrameCmd> = Vec::new();
    v.push(FrameCmd::CameraActive(true));
    v.push(FrameCmd::DepthTest(true));
    let n_o = p.opaque.len();
    let mut i: usize = 0;
    while i < n_o
        invariant
            i <= n_o,
            n_o == p.opaque@.len(),
            v@.len() == 2 + i,
            v@ =~= seq![FrameCmd::CameraActive(true), FrameCmd::DepthTest(true)]
                + p.opaque@.subrange(0, i as int).map_values(|k: u64| FrameCmd::DrawOpaque(k)),
        decreases n_o - i,
    {
        v.push(FrameCmd::DrawOpaque(p.opaque[i]));
        proof {
            assert(p.opaque@.subrange(0, i + 1).map_values(
                |k: u64| FrameCmd::DrawOpaque(k),
            ) =~= p.opaque@.subrange(0, i as int).map_values(|k: u64| FrameCmd::DrawOpaque(k))
                + seq![FrameCmd::DrawOpaque(p.opaque@[i as int])]);
        }
        i += 1;
    }
    proof {
        assert(p.opaque@.subrange(0, p.opaque@.len() as int) =~= p.opaque@);
    }
    let n_a = p.alpha.len();
    let mut j: usize = 0;
    while j < n_a
        invariant
            j <= n_a,
            n_a == p.alpha@.len(),
            v@ =~= seq![FrameCmd::CameraActive(true), FrameCmd::DepthTest(true)]
                + p.opaque@.map_values(|k: u64| FrameCmd::DrawOpaque(k)) + p.alpha@.subrange(
                0,
                j as int,
            ).map_values(|k: u64| FrameCmd::DrawAlpha(k)),
        decreases n_a - j,
    {
        v.push(FrameCmd::DrawAlpha(p.alpha[j]));
        proof {
            assert(p.alpha@.subrange(0, j + 1).map_values(
                |k: u64| FrameCmd::DrawAlpha(k),
            ) =~= p.alpha@.subrange(0, j as int).map_values(|k: u64| FrameCmd::DrawAlpha(k))
                + seq![FrameCmd::DrawAlpha(p.alpha@[j as int])]);
        }
        j += 1;
    }
    proof {
        assert(p.alpha@.subrange(0, p.alpha@.len() as int) =~= p.alpha@);
    }
    v.push(FrameCmd::DepthTest(false));
    v.push(FrameCmd::CameraActive(false));
    let n_g = p.overlay.len();
    let mut g: usize = 0;
    while g < n_g
        invariant
            g <= n_g,
            n_g == p.overlay@.len(),
            v@ =~= seq![FrameCmd::CameraActive(true), FrameCmd::DepthTest(true)]
                + p.opaque@.map_values(|k: u64| FrameCmd::DrawOpaque(k)) + p.alpha@.map_values(
                |k: u64| FrameCmd::DrawAlpha(k),
            ) + seq![FrameCmd::DepthTest(false), FrameCmd::CameraActive(false)]
                + p.overlay@.subrange(0, g as int).map_values(
                |i2: usize| FrameCmd::DrawOverlay(i2),
            ),
        decreases n_g - g,
    {
        v.push(FrameCmd::DrawOverlay(p.overlay[g]));
        proof {
            assert(p.overlay@.subrange(0, g + 1).map_values(
                |i2: usize| FrameCmd::DrawOverlay(i2),
            ) =~= p.overlay@.subrange(0, g as int).map_values(
                |i2: usize| FrameCmd::DrawOverlay(i2),
            ) + seq![FrameCmd::DrawOverlay(p.overlay@[g as int])]);
        }
        g += 1;
    }
    proof {
        assert(p.overlay@.subrange(0, p.overlay@.len() as int) =~= p.overlay@);
        assert(v@ =~= frame_cmds(*p));
    }
    v
}

/// Overlay shapes are invariant to camera motion: two registries that
/// agree on their shape collections — whatever their camera position and
/// rotation — compose the same overlay draw order, covering every overlay
/// slot.
pub proof fn lemma_overlay_camera_independent(
    r1: Registry,
    r2: Registry,
    p1: FramePlan,
    p2: FramePlan,
)
    requires
        r1.overlay@ == r2.overlay@,
        p1.overlay@ == overlay_order(r1.overlay@.len() as int),
        p2.overlay@ == overlay_order(r2.overlay@.len() as int),
    ensures
        p1.overlay@ == p2.overlay@,
        forall|i: int| 0 <= i < r1.overlay@.len() ==> #[trigger] p1.overlay@[i] == i as usize,
{
}

} // verus!
