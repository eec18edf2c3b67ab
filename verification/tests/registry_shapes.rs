use gpu_scene::frustum::Frustum;
use gpu_scene::geom::{BBox, Point3, Transform};
use gpu_scene::registry::{Handle, Registry, ShapeError};
use gpu_scene::shape::{Color, ShapeStyle};

fn translate(x: i64, y: i64, z: i64) -> Transform {
    let mut t = Transform::identity();
    t.m03 = x;
    t.m13 = y;
    t.m23 = z;
    t
}

fn red() -> Color {
    Color { r: 255, g: 0, b: 0, a: 255 }
}

/// Four vertices spanning x 0..2, y 0..2, z 0; one fan over all of them.
fn quad_model(reg: &mut Registry) -> gpu_scene::shape::ModelId {
    let verts: Vec<i64> = vec![
        0, 0, 0, 1, //
        2, 0, 0, 1, //
        2, 2, 0, 1, //
        0, 2, 0, 1,
    ];
    reg.create_model(&verts, vec![(0, 4)])
}

#[test]
fn create_model_records_bounds_and_center() {
    let mut reg = Registry::new();
    let verts: Vec<i64> = vec![
        -1, 0, 3, 1, //
        4, -2, 3, 1, //
        0, 5, 3, 1,
    ];
    let m = reg.create_model(&verts, vec![(0, 3)]);
    let info = &reg.models[m.0];
    assert_eq!(info.vertex_count, 3);
    assert_eq!(info.local_box.min, Point3 { x: -1, y: -2, z: 3 });
    assert_eq!(info.local_box.max, Point3 { x: 4, y: 5, z: 3 });
    // centers round toward the minimum corner
    assert_eq!(info.local_center, Point3 { x: 1, y: 1, z: 3 });
    assert_eq!(info.fans, vec![(0, 3)]);
}

#[test]
fn create_model_empty_stream_gets_origin_box() {
    let mut reg = Registry::new();
    let verts: Vec<i64> = vec![];
    let m = reg.create_model(&verts, vec![]);
    let info = &reg.models[m.0];
    assert_eq!(info.vertex_count, 0);
    let origin = Point3 { x: 0, y: 0, z: 0 };
    assert_eq!(info.local_box, BBox { min: origin, max: origin });
    assert_eq!(info.local_center, origin);
}

#[test]
fn solid_with_camera_routes_opaque() {
    // end to end: model with 4 vertices, one fan range (0,4); a solid
    // shape with identity transform, no blending, no fog, camera on tags
    // Opaque, and a frustum containing the origin returns exactly its key
    let mut reg = Registry::new();
    let m = quad_model(&mut reg);
    let h = reg.shape_solid(m, Transform::identity(), red(), false, false, true);
    assert_eq!(h, Handle::Opaque(0));
    let f = Frustum { center: Point3 { x: 0, y: 0, z: 0 }, radius: 100 };
    let keys = reg.opaque.ordered_near(&f);
    assert_eq!(keys, vec![0]);
}

#[test]
fn solid_without_camera_or_fog_routes_overlay() {
    let mut reg = Registry::new();
    let m = quad_model(&mut reg);
    let h = reg.shape_solid(m, Transform::identity(), red(), false, false, false);
    assert_eq!(h, Handle::Overlay(0));
    let h2 = reg.shape_solid(m, Transform::identity(), red(), true, false, false);
    assert_eq!(h2, Handle::Overlay(1));
    assert_eq!(reg.overlay.len(), 2);
}

#[test]
fn solid_with_blending_routes_alpha() {
    let mut reg = Registry::new();
    let m = quad_model(&mut reg);
    let h = reg.shape_solid(m, Transform::identity(), red(), true, false, true);
    assert_eq!(h, Handle::Alpha(0));
}

#[test]
fn fog_alone_keeps_shape_out_of_overlay() {
    let mut reg = Registry::new();
    let m = quad_model(&mut reg);
    let h = reg.shape_solid(m, Transform::identity(), red(), false, true, false);
    assert_eq!(h, Handle::Opaque(0));
}

#[test]
fn faded_always_blends() {
    let mut reg = Registry::new();
    let m = quad_model(&mut reg);
    let tex = reg.create_texture(4, 4);
    let tc = reg.create_texcoords(16);
    let h = reg
        .shape_faded(m, Transform::identity(), tex, tc, 128, false, true)
        .expect("matching counts");
    assert_eq!(h, Handle::Alpha(0));
    let rec = reg.record(&h);
    assert_eq!(rec.style, ShapeStyle::Faded);
    assert_eq!(rec.alpha, Some(128));
}

#[test]
fn texture_mismatch_fails_without_effect() {
    // a textured shape whose texcoords cover 3 vertices against a
    // 4-vertex model must fail before anything is placed
    let mut reg = Registry::new();
    let m = quad_model(&mut reg);
    let tex = reg.create_texture(4, 4);
    let tc_short = reg.create_texcoords(12);
    let opaque_before = reg.opaque.len();
    let overlay_before = reg.overlay.len();
    let res = reg.shape_texture(m, Transform::identity(), tex, tc_short, false, false, true);
    assert_eq!(res, Err(ShapeError::MismatchedAttributeCount));
    assert_eq!(reg.opaque.len(), opaque_before);
    assert_eq!(reg.alpha.len(), 0);
    assert_eq!(reg.overlay.len(), overlay_before);
    // a matching buffer still succeeds afterwards
    let tc_ok = reg.create_texcoords(16);
    let h = reg
        .shape_texture(m, Transform::identity(), tex, tc_ok, false, false, true)
        .expect("matching counts");
    assert_eq!(h, Handle::Opaque(0));
}

#[test]
fn gradient_mismatch_fails() {
    let mut reg = Registry::new();
    let m = quad_model(&mut reg);
    let colors_short = reg.create_gradient(8);
    let res = reg.shape_gradient(m, Transform::identity(), colors_short, false, false, true);
    assert_eq!(res, Err(ShapeError::MismatchedAttributeCount));
    let colors_ok = reg.create_gradient(16);
    assert!(reg
        .shape_gradient(m, Transform::identity(), colors_ok, false, false, true)
        .is_ok());
}

#[test]
fn complex_checks_both_buffers() {
    let mut reg = Registry::new();
    let m = quad_model(&mut reg);
    let tex = reg.create_texture(2, 2);
    let tc_ok = reg.create_texcoords(16);
    let tc_short = reg.create_texcoords(4);
    let tints_ok = reg.create_gradient(16);
    let tints_short = reg.create_gradient(4);
    let t = Transform::identity();
    assert_eq!(
        reg.shape_complex(m, t, tex, tc_short, tints_ok, false, false, true),
        Err(ShapeError::MismatchedAttributeCount)
    );
    assert_eq!(
        reg.shape_complex(m, t, tex, tc_ok, tints_short, false, false, true),
        Err(ShapeError::MismatchedAttributeCount)
    );
    assert!(reg.shape_complex(m, t, tex, tc_ok, tints_ok, false, false, true).is_ok());
}

#[test]
fn tinted_records_its_tint() {
    let mut reg = Registry::new();
    let m = quad_model(&mut reg);
    let tex = reg.create_texture(2, 2);
    let tc = reg.create_texcoords(16);
    let tint = Color { r: 10, g: 20, b: 30, a: 40 };
    let h = reg
        .shape_tinted(m, Transform::identity(), tex, tc, tint, false, false, true)
        .expect("matching counts");
    let rec = reg.record(&h);
    assert_eq!(rec.style, ShapeStyle::Tinted);
    assert_eq!(rec.color, Some(tint));
    assert_eq!(rec.texture, Some(tex));
    assert_eq!(rec.texcoords, Some(tc));
}

#[test]
fn bbox_follows_creation_transform() {
    // the stored box is the model's local box carried through the
    // transform, from the moment of creation
    let mut reg = Registry::new();
    let m = quad_model(&mut reg);
    let h = reg.shape_solid(m, translate(10, 0, 0), red(), false, false, true);
    let rec = reg.record(&h);
    assert_eq!(rec.bbox.min, Point3 { x: 10, y: 0, z: 0 });
    assert_eq!(rec.bbox.max, Point3 { x: 12, y: 2, z: 0 });
    assert_eq!(rec.pos, Point3 { x: 11, y: 1, z: 0 });
}

#[test]
fn set_transform_rewrites_box_and_key() {
    let mut reg = Registry::new();
    let m = quad_model(&mut reg);
    let mut h = reg.shape_solid(m, Transform::identity(), red(), false, false, true);
    let h0 = h;
    assert_eq!(h0, Handle::Opaque(0));
    reg.set_transform(&mut h, translate(10, 0, 0));
    // the handle was updated to a fresh key; the old raw key is dead
    assert_eq!(h, Handle::Opaque(1));
    assert!(reg.handle_valid(&h));
    assert!(!reg.handle_valid(&h0));
    let rec = reg.record(&h);
    assert_eq!(rec.bbox.min, Point3 { x: 10, y: 0, z: 0 });
    assert_eq!(rec.bbox.max, Point3 { x: 12, y: 2, z: 0 });
    assert_eq!(rec.transform, translate(10, 0, 0));
    // everything else survives the move
    assert_eq!(rec.style, ShapeStyle::Solid);
    assert_eq!(rec.color, Some(red()));
    assert_eq!(rec.fans, vec![(0, 4)]);
}

#[test]
fn set_transform_overlay_keeps_handle() {
    let mut reg = Registry::new();
    let m = quad_model(&mut reg);
    let mut h = reg.shape_solid(m, Transform::identity(), red(), false, false, false);
    assert_eq!(h, Handle::Overlay(0));
    reg.set_transform(&mut h, translate(3, 3, 0));
    assert_eq!(h, Handle::Overlay(0));
    let rec = reg.record(&h);
    assert_eq!(rec.bbox.min, Point3 { x: 3, y: 3, z: 0 });
}

#[test]
fn texture_size_reports_registered_dimensions() {
    let mut reg = Registry::new();
    let t = reg.create_texture(640, 480);
    assert_eq!(reg.texture_size(t), (640, 480));
}

#[test]
fn frame_state_setters_store_values() {
    let mut reg = Registry::new();
    reg.set_clear_color((10, 20, 30));
    assert_eq!(reg.clear_color, (10, 20, 30));
    reg.set_fog(Some((100, 2000)));
    assert_eq!(reg.fog, Some((100, 2000)));
    reg.set_fog(None);
    assert_eq!(reg.fog, None);
    reg.resize(800, 600);
    assert_eq!(reg.wh(), (800, 600));
    reg.set_camera(Point3 { x: 1, y: 2, z: 3 }, Point3 { x: 0, y: 0, z: 1 });
    let f = reg.current_frustum();
    assert_eq!(f.center, Point3 { x: 1, y: 2, z: 3 });
}
