use camera_lens::algebra::{Rot, Scalar, Vec3};
use camera_lens::lens::{Lens, OrthographicLens, PerspectiveLens, Scope};

fn vec(x: i64, y: i64, z: i64, w: i64) -> Vec3 {
    Vec3 { x, y, z, w }
}

fn dot(a: &Vec3, b: &Vec3) -> i128 {
    a.x as i128 * b.x as i128 + a.y as i128 * b.y as i128 + a.z as i128 * b.z as i128
}

fn norm2(a: &Vec3) -> i128 {
    dot(a, a)
}

fn assert_orthonormal(s: &Scope) {
    assert_eq!(norm2(&s.right), s.right.w as i128 * s.right.w as i128);
    assert_eq!(norm2(&s.up), s.up.w as i128 * s.up.w as i128);
    assert_eq!(norm2(&s.forward), s.forward.w as i128 * s.forward.w as i128);
    assert_eq!(dot(&s.right, &s.up), 0);
    assert_eq!(dot(&s.right, &s.forward), 0);
    assert_eq!(dot(&s.up, &s.forward), 0);
}

#[test]
fn concrete_scenario_perspective() {
    // target (0,0,-1), eye at the origin, no roll.
    let scope = Scope::new(vec(0, 0, -1, 1), vec(0, 0, 0, 1), Rot::identity()).unwrap();
    assert_eq!(scope.forward, vec(0, 0, -1, 1));
    assert_eq!(scope.up.x * scope.up.w, 0);
    assert_eq!(scope.up.y, scope.up.w);
    assert_eq!(scope.up.z, 0);
    assert_eq!(scope.right.x, scope.right.w);
    assert_eq!(scope.right.y, 0);
    assert_eq!(scope.right.z, 0);
    assert_orthonormal(&scope);

    let lens = PerspectiveLens::new(
        Scalar { n: 2, d: 1 },
        Scalar { n: 2, d: 1 },
        scope,
        Scalar { n: 1, d: 1 },
    );
    let ray = lens
        .generate_light_ray(Scalar { n: 0, d: 1 }, Scalar { n: 0, d: 1 })
        .unwrap();
    // Origin is the eye, direction is forward: (0, 0, -1).
    assert_eq!(ray.position.x, 0);
    assert_eq!(ray.position.y, 0);
    assert_eq!(ray.position.z, 0);
    assert_eq!(ray.direction.x, 0);
    assert_eq!(ray.direction.y, 0);
    assert_eq!(ray.direction.z * 1, -ray.direction.w);
}

#[test]
fn frame_orthonormal_345() {
    // forward along (3,0,4)/5; right and up stay exactly orthonormal.
    let scope = Scope::new(vec(3, 0, 4, 1), vec(0, 0, 0, 1), Rot::identity()).unwrap();
    assert_orthonormal(&scope);
}

#[test]
fn frame_orthonormal_with_roll() {
    // A 3-4-5 roll angle: cosine 3/5, sine 4/5, applied about forward.
    let roll = Rot::new(3, 4, 5).unwrap();
    let scope = Scope::new(vec(0, 0, -1, 1), vec(0, 0, 0, 1), roll).unwrap();
    assert_orthonormal(&scope);
}

#[test]
fn roll_full_turn_matches_identity() {
    // A cosine/sine pair for angle zero written with a larger denominator
    // stands for any whole number of turns; the frame value is unchanged.
    let turn = Rot::new(7, 0, 7).unwrap();
    let s1 = Scope::new(vec(0, 0, -1, 1), vec(0, 0, 0, 1), turn).unwrap();
    let s2 = Scope::new(vec(0, 0, -1, 1), vec(0, 0, 0, 1), Rot::identity()).unwrap();
    // Same values up to the representation's scaling.
    for (a, b) in [(s1.up, s2.up), (s1.right, s2.right), (s1.forward, s2.forward)] {
        assert_eq!(a.x as i128 * b.w as i128, b.x as i128 * a.w as i128);
        assert_eq!(a.y as i128 * b.w as i128, b.y as i128 * a.w as i128);
        assert_eq!(a.z as i128 * b.w as i128, b.z as i128 * a.w as i128);
    }
}

#[test]
fn degenerate_axis_fallback() {
    // Target directly above the eye: forward equals the world's vertical,
    // so right falls back to (1, 0, 0) and stays a unit vector.
    let scope = Scope::new(vec(0, 5, 0, 1), vec(0, 0, 0, 1), Rot::identity()).unwrap();
    assert_eq!(scope.forward.x, 0);
    assert_eq!(scope.forward.y, scope.forward.w);
    assert_eq!(scope.forward.z, 0);
    assert!(norm2(&scope.right) > 0);
    assert_orthonormal(&scope);
    assert_eq!(scope.right.x, scope.right.w);
    assert_eq!(scope.right.y, 0);
    assert_eq!(scope.right.z, 0);
}

#[test]
fn orthographic_rays_parallel() {
    let scope = Scope::new(vec(1, 2, 2, 1), vec(1, 2, 3, 1), Rot::identity()).unwrap();
    let lens = OrthographicLens::new(Scalar { n: 4, d: 1 }, Scalar { n: 2, d: 1 }, scope);
    let r1 = lens
        .generate_light_ray(Scalar { n: 1, d: 1 }, Scalar { n: 1, d: 1 })
        .unwrap();
    let r2 = lens
        .generate_light_ray(Scalar { n: -1, d: 1 }, Scalar { n: 1, d: 2 })
        .unwrap();
    assert_eq!(r1.direction, r2.direction);
    assert_eq!(r1.direction, scope.forward);
    // Origins differ: at (1,1) the origin is eye + right*2 + up*1.
    assert_ne!(r1.position.x as i128 * r2.position.w as i128,
               r2.position.x as i128 * r1.position.w as i128);
}

#[test]
fn orthographic_origin_offset_exact() {
    let scope = Scope::new(vec(0, 0, -1, 1), vec(0, 0, 0, 1), Rot::identity()).unwrap();
    let lens = OrthographicLens::new(Scalar { n: 4, d: 1 }, Scalar { n: 2, d: 1 }, scope);
    let r = lens
        .generate_light_ray(Scalar { n: 1, d: 1 }, Scalar { n: 1, d: 1 })
        .unwrap();
    // Origin value is right*(1*4/2) + up*(1*2/2) = (2, 1, 0).
    assert_eq!(r.position.x as i128, 2 * r.position.w as i128);
    assert_eq!(r.position.y as i128, 1 * r.position.w as i128);
    assert_eq!(r.position.z, 0);
}

#[test]
fn perspective_origin_invariant_direction_unit() {
    let scope = Scope::new(vec(5, 6, 6, 1), vec(5, 6, 7, 1), Rot::identity()).unwrap();
    let lens = PerspectiveLens::new(
        Scalar { n: 6, d: 1 },
        Scalar { n: 6, d: 1 },
        scope,
        Scalar { n: 4, d: 1 },
    );
    // Offsets (3,0) give direction (3, 0, -4)/5 after exact normalization.
    let r1 = lens
        .generate_light_ray(Scalar { n: 1, d: 1 }, Scalar { n: 0, d: 1 })
        .unwrap();
    let r2 = lens
        .generate_light_ray(Scalar { n: 0, d: 1 }, Scalar { n: 0, d: 1 })
        .unwrap();
    assert_eq!(r1.position, r2.position);
    assert_eq!(r1.position, scope.position);
    assert_eq!(norm2(&r1.direction), r1.direction.w as i128 * r1.direction.w as i128);
    assert_eq!(norm2(&r2.direction), r2.direction.w as i128 * r2.direction.w as i128);
    assert_eq!(r1.direction.x as i128 * 5, 3 * r1.direction.w as i128);
    assert_eq!(r1.direction.y, 0);
    assert_eq!(r1.direction.z as i128 * 5, -4 * r1.direction.w as i128);
}

#[test]
fn lens_enum_dispatches() {
    let scope = Scope::new(vec(0, 0, -1, 1), vec(0, 0, 0, 1), Rot::identity()).unwrap();
    let ortho = Lens::Orthographic(OrthographicLens::new(
        Scalar { n: 2, d: 1 },
        Scalar { n: 2, d: 1 },
        scope,
    ));
    let persp = Lens::Perspective(PerspectiveLens::new(
        Scalar { n: 2, d: 1 },
        Scalar { n: 2, d: 1 },
        scope,
        Scalar { n: 1, d: 1 },
    ));
    let zero = Scalar { n: 0, d: 1 };
    let r1 = ortho.generate_light_ray(zero, zero).unwrap();
    let r2 = persp.generate_light_ray(zero, zero).unwrap();
    assert_eq!(r1.direction, scope.forward);
    assert_eq!(r2.position, scope.position);
}

#[test]
fn target_equal_position_rejected() {
    // Zero viewing direction cannot be normalized.
    assert!(Scope::new(vec(1, 2, 3, 1), vec(1, 2, 3, 1), Rot::identity()).is_none());
}

#[test]
fn non_square_magnitude_rejected() {
    // |(1,1,0)|^2 = 2 is no perfect square: no exact unit forward exists.
    assert!(Scope::new(vec(1, 1, 0, 1), vec(0, 0, 0, 1), Rot::identity()).is_none());
}

#[test]
fn rot_off_circle_rejected() {
    assert!(Rot::new(3, 4, 6).is_none());
    assert!(Rot::new(3, 4, 5).is_some());
    assert!(Rot::new(3, 4, -5).is_none());
}

#[test]
fn normalize_exact_cases() {
    let v = vec(3, 0, 4, 7);
    let u = v.normalize().unwrap();
    assert_eq!(u, vec(3, 0, 4, 5));
    assert!(vec(0, 0, 0, 1).normalize().is_none());
    assert!(vec(1, 1, 0, 1).normalize().is_none());
}

#[test]
fn vector_arithmetic_exact() {
    let a = vec(1, 2, 3, 2);
    let b = vec(1, 0, 0, 1);
    let d = a.subtract(&b).unwrap();
    // (1/2 - 1, 1, 3/2) = (-1/2, 1, 3/2)
    assert_eq!(d, vec(-1, 2, 3, 2));
    let s = a.add(&b).unwrap();
    assert_eq!(s, vec(3, 2, 3, 2));
    let c = b.cross(&vec(0, 1, 0, 1)).unwrap();
    assert_eq!(c, vec(0, 0, 1, 1));
    assert!(a.equals(&vec(2, 4, 6, 4)));
    assert!(!a.equals(&b));
}

#[test]
fn arithmetic_out_of_range_rejected() {
    let big = 0x8000_0000i64;
    let a = vec(big, 0, 0, 1);
    let b = vec(-big, 0, 0, 1);
    // The difference 2^32 leaves the representable range.
    assert!(a.subtract(&b).is_none());
    assert!(a.add(&b).is_some());
}
