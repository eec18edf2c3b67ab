use gpu_scene::frustum::Frustum;
use gpu_scene::geom::{Point3, Transform};
use gpu_scene::index::{same_bucket, SpatialIndex};
use gpu_scene::registry::{Handle, Registry};
use gpu_scene::shape::Color;

fn translate(x: i64, y: i64, z: i64) -> Transform {
    let mut t = Transform::identity();
    t.m03 = x;
    t.m13 = y;
    t.m23 = z;
    t
}

fn white() -> Color {
    Color { r: 255, g: 255, b: 255, a: 255 }
}

/// A registry with one point model, plus that model's id.
fn point_model() -> (Registry, gpu_scene::shape::ModelId) {
    let mut reg = Registry::new();
    let verts: Vec<i64> = vec![0, 0, 0, 1];
    let m = reg.create_model(&verts, vec![(0, 1)]);
    (reg, m)
}

/// A well-formed record positioned by the given translation.
fn record_at(x: i64, y: i64, z: i64) -> gpu_scene::shape::ShapeRec {
    let (mut reg, m) = point_model();
    let h = reg.shape_solid(m, translate(x, y, z), white(), false, false, true);
    reg.record(&h).clone()
}

#[test]
fn insert_remove_round_trip() {
    let rec = record_at(3, 4, 5);
    let mut idx = SpatialIndex::new();
    let k = idx.insert(rec.clone());
    assert_eq!(idx.len(), 1);
    assert!(idx.contains_key(k));
    let out = idx.remove(k);
    assert_eq!(out, rec);
    assert!(idx.is_empty());
    assert_eq!(idx.len(), 0);
    assert!(!idx.contains_key(k));
}

#[test]
fn removed_key_is_never_reissued() {
    let rec = record_at(0, 0, 0);
    let mut idx = SpatialIndex::new();
    let k1 = idx.insert(rec.clone());
    idx.remove(k1);
    let k2 = idx.insert(rec.clone());
    assert_ne!(k1, k2);
    let k3 = idx.insert(rec);
    assert_ne!(k1, k3);
    assert_ne!(k2, k3);
}

#[test]
fn get_returns_inserted_record() {
    let rec = record_at(1, 2, 3);
    let mut idx = SpatialIndex::new();
    let k = idx.insert(rec.clone());
    assert_eq!(*idx.get(k), rec);
}

#[test]
fn update_in_place_keeps_key_and_rewrites_record() {
    let rec = record_at(1, 1, 1);
    let mut idx = SpatialIndex::new();
    let k = idx.insert(rec.clone());
    let mut rec2 = rec.clone();
    rec2.color = Some(Color { r: 0, g: 0, b: 0, a: 255 });
    // same bounding box, so same bucket
    assert!(same_bucket(&rec2.bbox, &idx.get(k).bbox));
    idx.update_in_place(k, rec2.clone());
    assert_eq!(idx.len(), 1);
    assert_eq!(*idx.get(k), rec2);
}

#[test]
fn ordered_near_sorts_by_distance_and_culls() {
    let (mut reg, m) = point_model();
    let h_far = reg.shape_solid(m, translate(5, 0, 0), white(), false, false, true);
    let h_near = reg.shape_solid(m, translate(1, 0, 0), white(), false, false, true);
    let h_mid = reg.shape_solid(m, translate(3, 0, 0), white(), false, false, true);
    let h_out = reg.shape_solid(m, translate(20, 0, 0), white(), false, false, true);
    let (k_far, k_near, k_mid, k_out) = match (h_far, h_near, h_mid, h_out) {
        (Handle::Opaque(a), Handle::Opaque(b), Handle::Opaque(c), Handle::Opaque(d)) => {
            (a, b, c, d)
        },
        _ => panic!("solid shapes with a camera must join the opaque pass"),
    };
    let f = Frustum { center: Point3 { x: 0, y: 0, z: 0 }, radius: 10 };
    let near_order = reg.opaque.ordered_near(&f);
    assert_eq!(near_order, vec![k_near, k_mid, k_far]);
    assert!(!near_order.contains(&k_out));
}

#[test]
fn ordered_far_reverses_ordered_near() {
    let (mut reg, m) = point_model();
    reg.shape_solid(m, translate(5, 0, 0), white(), false, false, true);
    reg.shape_solid(m, translate(1, 0, 0), white(), false, false, true);
    reg.shape_solid(m, translate(3, 3, 0), white(), false, false, true);
    let f = Frustum { center: Point3 { x: 0, y: 0, z: 0 }, radius: 100 };
    let near_order = reg.opaque.ordered_near(&f);
    let far_order = reg.opaque.ordered_far(&f);
    let mut reversed = far_order.clone();
    reversed.reverse();
    assert_eq!(reversed, near_order);
    assert_eq!(near_order.len(), 3);
}

#[test]
fn equal_distances_break_ties_by_key() {
    let (mut reg, m) = point_model();
    // two shapes at the same distance from the origin
    reg.shape_solid(m, translate(0, 5, 0), white(), false, false, true);
    reg.shape_solid(m, translate(5, 0, 0), white(), false, false, true);
    let f = Frustum { center: Point3 { x: 0, y: 0, z: 0 }, radius: 10 };
    let near_order = reg.opaque.ordered_near(&f);
    assert_eq!(near_order, vec![0, 1]);
    let far_order = reg.opaque.ordered_far(&f);
    assert_eq!(far_order, vec![1, 0]);
}

#[test]
fn alpha_pass_draws_farthest_first() {
    // two alpha shapes at distances 1 and 5 from the frustum reference
    // point: the distance-5 shape must come strictly before the
    // distance-1 shape
    let (mut reg, m) = point_model();
    let h1 = reg.shape_solid(m, translate(1, 0, 0), white(), true, false, true);
    let h5 = reg.shape_solid(m, translate(5, 0, 0), white(), true, false, true);
    let (k1, k5) = match (h1, h5) {
        (Handle::Alpha(a), Handle::Alpha(b)) => (a, b),
        _ => panic!("blending shapes with a camera must join the alpha pass"),
    };
    let f = Frustum { center: Point3 { x: 0, y: 0, z: 0 }, radius: 10 };
    let far_order = reg.alpha.ordered_far(&f);
    assert_eq!(far_order, vec![k5, k1]);
}
