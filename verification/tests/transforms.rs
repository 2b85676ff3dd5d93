use raster_core::matrix::{mat_apply, Vec3, Vec4};
use raster_core::rational::{rat_eq, Rat};
use raster_core::transform::{
    get_model_matrix, get_model_matrix_z, get_projection_matrix, get_view_matrix,
};

fn vec3(x: Rat, y: Rat, z: Rat) -> Vec3 {
    Vec3::new(x, y, z)
}

#[test]
fn view_sends_eye_to_origin() {
    let eye = vec3(Rat::from_int(0), Rat::from_int(0), Rat::from_int(5));
    let m = get_view_matrix(&eye);
    let p = Vec4::new(Rat::from_int(0), Rat::from_int(0), Rat::from_int(5), Rat::one());
    let r = mat_apply(&m, &p);
    assert!(rat_eq(&r.x, &Rat::zero()));
    assert!(rat_eq(&r.y, &Rat::zero()));
    assert!(rat_eq(&r.z, &Rat::zero()));
    assert!(rat_eq(&r.w, &Rat::one()));
}

#[test]
fn view_general_eye() {
    let eye = vec3(Rat::new(7, 2), Rat::new(-3, 4), Rat::from_int(1));
    let m = get_view_matrix(&eye);
    let p = Vec4::new(Rat::new(7, 2), Rat::new(-3, 4), Rat::from_int(1), Rat::one());
    let r = mat_apply(&m, &p);
    assert!(rat_eq(&r.x, &Rat::zero()));
    assert!(rat_eq(&r.y, &Rat::zero()));
    assert!(rat_eq(&r.z, &Rat::zero()));
    assert!(rat_eq(&r.w, &Rat::one()));
}

#[test]
fn model_z_matches_closed_form_rotation() {
    // A rational point on the unit circle: cos = 3/5, sin = 4/5.
    let c = Rat::new(3, 5);
    let s = Rat::new(4, 5);
    let m = get_model_matrix_z(&c, &s);
    assert!(rat_eq(&m.m00, &c));
    assert!(rat_eq(&m.m01, &Rat::new(-4, 5)));
    assert!(rat_eq(&m.m10, &s));
    assert!(rat_eq(&m.m11, &c));
    assert!(rat_eq(&m.m02, &Rat::zero()));
    assert!(rat_eq(&m.m12, &Rat::zero()));
    assert!(rat_eq(&m.m20, &Rat::zero()));
    assert!(rat_eq(&m.m21, &Rat::zero()));
    assert!(rat_eq(&m.m22, &Rat::one()));
    assert!(rat_eq(&m.m33, &Rat::one()));
}

#[test]
fn model_zero_angle_is_identity() {
    // cos 0 = 1, sin 0 = 0, about an arbitrary nonzero unit axis (3/5, 4/5, 0).
    let m = get_model_matrix(
        &Rat::one(),
        &Rat::zero(),
        &vec3(Rat::new(3, 5), Rat::new(4, 5), Rat::zero()),
    );
    assert!(rat_eq(&m.m00, &Rat::one()));
    assert!(rat_eq(&m.m11, &Rat::one()));
    assert!(rat_eq(&m.m22, &Rat::one()));
    assert!(rat_eq(&m.m01, &Rat::zero()));
    assert!(rat_eq(&m.m02, &Rat::zero()));
    assert!(rat_eq(&m.m10, &Rat::zero()));
    assert!(rat_eq(&m.m12, &Rat::zero()));
    assert!(rat_eq(&m.m20, &Rat::zero()));
    assert!(rat_eq(&m.m21, &Rat::zero()));
}

#[test]
fn model_general_axis_is_orthogonal_in_sample() {
    // Unit axis (3/5, 4/5, 0) and unit cosine/sine pair (5/13, 12/13):
    // columns of the 3x3 block must be unit length and orthogonal.
    let c = Rat::new(5, 13);
    let s = Rat::new(12, 13);
    let m = get_model_matrix(&c, &s, &vec3(Rat::new(3, 5), Rat::new(4, 5), Rat::zero()));
    let col0 = [m.m00, m.m10, m.m20];
    let col1 = [m.m01, m.m11, m.m21];
    let col2 = [m.m02, m.m12, m.m22];
    let dot = |a: &[Rat; 3], b: &[Rat; 3]| -> Rat {
        let mut acc = Rat::zero();
        for i in 0..3 {
            acc = raster_core::rational::rat_add(&acc, &raster_core::rational::rat_mul(&a[i], &b[i]));
        }
        acc
    };
    assert!(rat_eq(&dot(&col0, &col0), &Rat::one()));
    assert!(rat_eq(&dot(&col1, &col1), &Rat::one()));
    assert!(rat_eq(&dot(&col2, &col2), &Rat::one()));
    assert!(rat_eq(&dot(&col0, &col1), &Rat::zero()));
    assert!(rat_eq(&dot(&col0, &col2), &Rat::zero()));
    assert!(rat_eq(&dot(&col1, &col2), &Rat::zero()));
}

#[test]
fn projection_scenario_near_and_far_planes() {
    // fov 90 degrees (tan of the half angle is 1), aspect 1, planes given as
    // negative z-coordinates: near -1/10, far -50.
    let t = Rat::one();
    let a = Rat::one();
    let n = Rat::new(-1, 10);
    let f = Rat::from_int(-50);
    let m = get_projection_matrix(&t, &a, &n, &f);
    // The frustum center point on the near plane, z = -1/10.
    let p = Vec4::new(Rat::zero(), Rat::zero(), Rat::new(-1, 10), Rat::one());
    let r = mat_apply(&m, &p);
    assert!(rat_eq(&r.x, &Rat::zero()));
    assert!(rat_eq(&r.y, &Rat::zero()));
    // After the homogeneous divide z' = 1: the clip z equals the clip w.
    assert!(rat_eq(&r.z, &r.w));
    // The far-plane center lands on the opposite clip plane: z' = -1.
    let pf = Vec4::new(Rat::zero(), Rat::zero(), Rat::from_int(-50), Rat::one());
    let rf = mat_apply(&m, &pf);
    let neg_w = raster_core::rational::rat_neg(&rf.w);
    assert!(rat_eq(&rf.z, &neg_w));
}

#[test]
fn rational_arithmetic_is_exact() {
    let third = Rat::new(1, 3);
    let sixth = Rat::new(1, 6);
    let sum = raster_core::rational::rat_add(&third, &sixth);
    assert!(rat_eq(&sum, &Rat::new(1, 2)));
    let prod = raster_core::rational::rat_mul(&third, &Rat::new(3, 2));
    assert!(rat_eq(&prod, &Rat::new(1, 2)));
    let quot = raster_core::rational::rat_div(&third, &Rat::new(2, 3));
    assert!(rat_eq(&quot, &Rat::new(1, 2)));
}
