use gpu_scene::composer::{compose_frame, plan_commands, FrameCmd};
use gpu_scene::geom::{Point3, Transform};
use gpu_scene::registry::Registry;
use gpu_scene::shape::{Color, ShapeStyle};
use gpu_scene::style::{decl_of, draw_plan, BindCmd};
use gpu_scene::{check_connection, Connection, UnsupportedConnection};

fn translate(x: i64, y: i64, z: i64) -> Transform {
    let mut t = Transform::identity();
    t.m03 = x;
    t.m13 = y;
    t.m23 = z;
    t
}

fn red() -> Color {
    Color { r: 255, g: 0, b: 0, a: 255 }
}

fn point_model(reg: &mut Registry) -> gpu_scene::shape::ModelId {
    let verts: Vec<i64> = vec![0, 0, 0, 1];
    reg.create_model(&verts, vec![(0, 1)])
}

#[test]
fn frame_follows_the_phase_sequence() {
    let mut reg = Registry::new();
    let m = point_model(&mut reg);
    reg.shape_solid(m, translate(1, 0, 0), red(), false, false, true); // opaque
    reg.shape_solid(m, translate(2, 0, 0), red(), true, false, true); // alpha
    reg.shape_solid(m, Transform::identity(), red(), false, false, false); // overlay
    let plan = compose_frame(&reg);
    let cmds = plan_commands(&plan);
    assert_eq!(
        cmds,
        vec![
            FrameCmd::CameraActive(true),
            FrameCmd::DepthTest(true),
            FrameCmd::DrawOpaque(0),
            FrameCmd::DrawAlpha(0),
            FrameCmd::DepthTest(false),
            FrameCmd::CameraActive(false),
            FrameCmd::DrawOverlay(0),
        ]
    );
}

#[test]
fn opaque_near_first_alpha_far_first() {
    let mut reg = Registry::new();
    let m = point_model(&mut reg);
    reg.shape_solid(m, translate(5, 0, 0), red(), false, false, true);
    reg.shape_solid(m, translate(1, 0, 0), red(), false, false, true);
    reg.shape_solid(m, translate(5, 0, 0), red(), true, false, true);
    reg.shape_solid(m, translate(1, 0, 0), red(), true, false, true);
    let plan = compose_frame(&reg);
    // opaque: nearest first (keys 1 then 0); alpha: farthest first
    assert_eq!(plan.opaque, vec![1, 0]);
    assert_eq!(plan.alpha, vec![0, 1]);
}

#[test]
fn overlay_order_survives_camera_motion() {
    // changing camera position or rotation never changes which overlay
    // shapes render, nor their order
    let mut reg = Registry::new();
    let m = point_model(&mut reg);
    reg.shape_solid(m, translate(1, 0, 0), red(), false, false, false);
    reg.shape_solid(m, translate(9, 0, 0), red(), false, false, false);
    reg.shape_solid(m, translate(4, 0, 0), red(), false, false, true);
    let plan_a = compose_frame(&reg);
    reg.set_camera(Point3 { x: 100, y: -50, z: 7 }, Point3 { x: 1, y: 1, z: 0 });
    let plan_b = compose_frame(&reg);
    assert_eq!(plan_a.overlay, plan_b.overlay);
    assert_eq!(plan_b.overlay, vec![0, 1]);
}

#[test]
fn solid_plan_binds_color_only() {
    let mut reg = Registry::new();
    let m = point_model(&mut reg);
    let t = translate(1, 2, 3);
    let h = reg.shape_solid(m, t, red(), false, false, true);
    let cmds = draw_plan(reg.record(&h));
    assert_eq!(
        cmds,
        vec![
            BindCmd::UseStyle(ShapeStyle::Solid),
            BindCmd::SetTransform(t),
            BindCmd::SetColor(red()),
            BindCmd::SetFog(false),
            BindCmd::DrawFan(0, 1),
        ]
    );
}

#[test]
fn complex_plan_binds_every_declared_resource() {
    let mut reg = Registry::new();
    let m = point_model(&mut reg);
    let tex = reg.create_texture(2, 2);
    let tc = reg.create_texcoords(4);
    let tints = reg.create_gradient(4);
    let t = Transform::identity();
    let h = reg
        .shape_complex(m, t, tex, tc, tints, false, true, true)
        .expect("matching counts");
    let cmds = draw_plan(reg.record(&h));
    assert_eq!(
        cmds,
        vec![
            BindCmd::UseStyle(ShapeStyle::Complex),
            BindCmd::SetTransform(t),
            BindCmd::BindTexCoords(tc),
            BindCmd::BindGradient(tints),
            BindCmd::BindTexture(tex),
            BindCmd::SetFog(true),
            BindCmd::DrawFan(0, 1),
        ]
    );
}

#[test]
fn faded_plan_includes_alpha_uniform() {
    let mut reg = Registry::new();
    let m = point_model(&mut reg);
    let tex = reg.create_texture(2, 2);
    let tc = reg.create_texcoords(4);
    let t = Transform::identity();
    let h = reg
        .shape_faded(m, t, tex, tc, 77, false, true)
        .expect("matching counts");
    let cmds = draw_plan(reg.record(&h));
    assert_eq!(
        cmds,
        vec![
            BindCmd::UseStyle(ShapeStyle::Faded),
            BindCmd::SetTransform(t),
            BindCmd::BindTexCoords(tc),
            BindCmd::BindTexture(tex),
            BindCmd::SetAlpha(77),
            BindCmd::SetFog(false),
            BindCmd::DrawFan(0, 1),
        ]
    );
}

#[test]
fn each_fan_range_is_drawn_in_order() {
    let mut reg = Registry::new();
    let verts: Vec<i64> = vec![
        0, 0, 0, 1, //
        1, 0, 0, 1, //
        1, 1, 0, 1, //
        0, 1, 0, 1, //
        0, 0, 1, 1, //
        1, 0, 1, 1,
    ];
    let m = reg.create_model(&verts, vec![(0, 4), (4, 6)]);
    let h = reg.shape_solid(m, Transform::identity(), red(), false, false, true);
    let cmds = draw_plan(reg.record(&h));
    let fans: Vec<BindCmd> = cmds
        .into_iter()
        .filter(|c| matches!(c, BindCmd::DrawFan(_, _)))
        .collect();
    assert_eq!(fans, vec![BindCmd::DrawFan(0, 4), BindCmd::DrawFan(4, 6)]);
}

#[test]
fn declarations_match_record_presence() {
    // binding is gated on resource presence; each constructor fills
    // exactly what its style declares
    let mut reg = Registry::new();
    let m = point_model(&mut reg);
    let tex = reg.create_texture(2, 2);
    let tc = reg.create_texcoords(4);
    let grad = reg.create_gradient(4);
    let t = Transform::identity();
    let handles = vec![
        reg.shape_solid(m, t, red(), false, false, true),
        reg.shape_gradient(m, t, grad, false, false, true).unwrap(),
        reg.shape_texture(m, t, tex, tc, false, false, true).unwrap(),
        reg.shape_faded(m, t, tex, tc, 1, false, true).unwrap(),
        reg.shape_tinted(m, t, tex, tc, red(), false, false, true).unwrap(),
        reg.shape_complex(m, t, tex, tc, grad, false, false, true).unwrap(),
    ];
    for h in handles {
        let rec = reg.record(&h);
        let d = decl_of(rec.style);
        assert_eq!(rec.texcoords.is_some(), d.uses_texcoords);
        assert_eq!(rec.gradient.is_some(), d.uses_gradient);
        assert_eq!(rec.texture.is_some(), d.uses_texture);
        assert_eq!(rec.alpha.is_some(), d.uses_alpha);
        assert_eq!(
            rec.color.is_some(),
            d.uses_color || rec.style == ShapeStyle::Solid
        );
    }
}

#[test]
fn connection_support_is_decided_up_front() {
    assert_eq!(check_connection(Connection::Xcb), Ok(()));
    assert_eq!(check_connection(Connection::Windows), Ok(()));
    for c in [
        Connection::Wayland,
        Connection::DirectFb,
        Connection::Android,
        Connection::Ios,
        Connection::AldaronsOs,
        Connection::Arduino,
        Connection::Switch,
        Connection::Web,
        Connection::NoOs,
    ] {
        assert_eq!(
            check_connection(c),
            Err(UnsupportedConnection { connection: c })
        );
    }
}
