use gpu_scene::frustum::Frustum;
use gpu_scene::geom::{
    apply_transform, box_center, box_gap_sq_exec, dist_sq_exec, world_box, BBox, Point3,
    Transform,
};

fn translate(x: i64, y: i64, z: i64) -> Transform {
    let mut t = Transform::identity();
    t.m03 = x;
    t.m13 = y;
    t.m23 = z;
    t
}

#[test]
fn apply_identity_is_identity() {
    let t = Transform::identity();
    let p = Point3 { x: 7, y: -3, z: 11 };
    let q = apply_transform(&t, p);
    assert_eq!(q, p);
}

#[test]
fn apply_scale_and_translate() {
    let mut t = translate(5, 0, -1);
    t.m00 = 2;
    let p = Point3 { x: 3, y: 4, z: 6 };
    let q = apply_transform(&t, p);
    assert_eq!(q, Point3 { x: 11, y: 4, z: 5 });
}

#[test]
fn world_box_identity_keeps_box() {
    let t = Transform::identity();
    let b = BBox {
        min: Point3 { x: -1, y: 0, z: 2 },
        max: Point3 { x: 3, y: 5, z: 2 },
    };
    let w = world_box(&t, &b);
    assert_eq!(w, b);
}

#[test]
fn world_box_negative_scale_swaps_extremes() {
    let mut t = Transform::identity();
    t.m00 = -1;
    let b = BBox {
        min: Point3 { x: 1, y: 0, z: 0 },
        max: Point3 { x: 2, y: 0, z: 0 },
    };
    let w = world_box(&t, &b);
    assert_eq!(w.min.x, -2);
    assert_eq!(w.max.x, -1);
}

#[test]
fn world_box_translation_shifts_box() {
    let t = translate(10, -4, 0);
    let b = BBox {
        min: Point3 { x: 0, y: 0, z: 0 },
        max: Point3 { x: 2, y: 2, z: 2 },
    };
    let w = world_box(&t, &b);
    assert_eq!(w.min, Point3 { x: 10, y: -4, z: 0 });
    assert_eq!(w.max, Point3 { x: 12, y: -2, z: 2 });
}

#[test]
fn box_center_rounds_toward_min() {
    let b = BBox {
        min: Point3 { x: 0, y: -3, z: 1 },
        max: Point3 { x: 3, y: 0, z: 1 },
    };
    let c = box_center(&b);
    assert_eq!(c, Point3 { x: 1, y: -2, z: 1 });
}

#[test]
fn dist_sq_pythagorean() {
    let a = Point3 { x: 0, y: 0, z: 0 };
    let b = Point3 { x: 3, y: 4, z: 0 };
    assert_eq!(dist_sq_exec(&a, &b), 25);
}

#[test]
fn box_gap_zero_inside() {
    let b = BBox {
        min: Point3 { x: -1, y: -1, z: -1 },
        max: Point3 { x: 1, y: 1, z: 1 },
    };
    let p = Point3 { x: 0, y: 1, z: -1 };
    assert_eq!(box_gap_sq_exec(&b, &p), 0);
}

#[test]
fn box_gap_counts_each_axis() {
    let b = BBox {
        min: Point3 { x: 0, y: 0, z: 0 },
        max: Point3 { x: 1, y: 1, z: 1 },
    };
    let p = Point3 { x: 3, y: -2, z: 0 };
    // gaps: x = 2, y = 2, z = 0
    assert_eq!(box_gap_sq_exec(&b, &p), 8);
}

#[test]
fn frustum_intersects_on_boundary() {
    let f = Frustum { center: Point3 { x: 5, y: 0, z: 0 }, radius: 4 };
    let b = BBox {
        min: Point3 { x: 0, y: 0, z: 0 },
        max: Point3 { x: 1, y: 0, z: 0 },
    };
    // gap is exactly 4: still intersecting
    assert!(f.intersects_box(&b));
    let near = Frustum { center: Point3 { x: 5, y: 0, z: 0 }, radius: 3 };
    assert!(!near.intersects_box(&b));
}
