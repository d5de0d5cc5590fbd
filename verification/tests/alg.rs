use softbody::alg::Line;
use softbody::alg::Mat;
use softbody::alg::Plane;
use softbody::alg::Quat;
use softbody::alg::Vec2;
use softbody::alg::Vec3;
use softbody::fixed::Fixed;
use softbody::fixed::SCALE;

fn fx(v: f64) -> Fixed {
    Fixed::from_raw((v * SCALE as f64).round() as i64)
}

fn fl(v: Fixed) -> f64 {
    v.raw as f64 / SCALE as f64
}

fn vec3(x: f64, y: f64, z: f64) -> Vec3 {
    Vec3::new(fx(x), fx(y), fx(z))
}

fn mat_error(a: Mat, b: Mat) -> f64 {
    let pairs = [
        (a.x0, b.x0),
        (a.y0, b.y0),
        (a.z0, b.z0),
        (a.w0, b.w0),
        (a.x1, b.x1),
        (a.y1, b.y1),
        (a.z1, b.z1),
        (a.w1, b.w1),
        (a.x2, b.x2),
        (a.y2, b.y2),
        (a.z2, b.z2),
        (a.w2, b.w2),
        (a.x3, b.x3),
        (a.y3, b.y3),
        (a.z3, b.z3),
        (a.w3, b.w3),
    ];
    let mut total = 0f64;
    for (x, y) in pairs {
        total += (fl(x) - fl(y)).abs();
    }
    total
}

fn vec3_error(a: Vec3, b: Vec3) -> f64 {
    (fl(a.x) - fl(b.x)).abs() + (fl(a.y) - fl(b.y)).abs() + (fl(a.z) - fl(b.z)).abs()
}

fn quat_error(a: Quat, b: Quat) -> f64 {
    let mut total = 0f64;
    for (x, y) in [(a.x, b.x), (a.y, b.y), (a.z, b.z), (a.w, b.w)] {
        total += (fl(x) - fl(y)) * (fl(x) - fl(y));
    }
    total.sqrt()
}

#[test]
fn mul_mat() {
    let translation = Mat::translation(fx(1.0), fx(2.0), fx(3.0));

    assert!(translation * Mat::id() == translation);
    assert!(Mat::id() * translation == translation);
}

#[test]
fn mul_vec() {
    let vec = vec3(9., -4., 0.);
    let scale = Mat::scale(fx(-1.), fx(3.), fx(2.));

    assert!(Mat::id() * vec == vec);
    assert!(scale * vec == vec3(-9., -12., 0.));

    let mat = Mat::new(
        fx(1.), fx(1.), fx(1.), fx(0.),
        fx(0.), fx(1.), fx(0.), fx(0.),
        fx(0.), fx(0.), fx(0.), fx(0.),
        fx(0.), fx(0.), fx(0.), fx(0.),
    );

    assert!(mat * vec == vec3(5., -4., 0.,));

    let translation = Mat::translation(fx(2.), fx(-7.), fx(0.5));
    assert!(translation * Vec3::zero() == vec3(2., -7., 0.5));
}

#[test]
fn convert_quat() {
    assert!(Quat::id().to_mat() == Mat::id());

    let quat = Quat::axis_angle(Vec3::right(), fx(-6.3));
    let mat = Mat::rotation_x(fx(-6.3));

    let error = mat_error(quat.to_mat(), mat);
    println!("Error: {}", error);
    assert!(error < 0.0001);
}

#[test]
fn mul_quat_vec() {
    let quat = Quat::axis_angle(Vec3::up(), fx(7.1));
    let mat = Mat::rotation_y(fx(7.1));
    let vec = vec3(1., 2., 3.);

    let error = vec3_error(quat.to_mat() * vec, mat * vec);
    println!("Error: {}", error);
    assert!(error < 0.0001);
}

#[test]
fn mul_quat() {
    assert!(Quat::id() * Quat::id() == Quat::id());

    let m1 = Mat::rotation_y(fx(1.0));
    let m2 = Mat::rotation_z(fx(-7.0));

    let q1 = Quat::from_mat(m1);
    let q2 = Quat::from_mat(m2);

    let error = quat_error(Quat::from_mat(m1 * m2), q1 * q2);

    assert!(error < 0.0001);
}

#[test]
fn invert_quat() {
    assert!(Quat::id() * Quat::id().conjugate() == Quat::id());

    let q1 = Quat::axis_angle(Vec3::one(), fx(3.5));

    let error = quat_error(q1 * q1.conjugate(), Quat::id());

    assert!(error < 0.0001);

    let q2 = Quat::new(fx(-1.0), fx(-2.0), fx(-3.0), fx(-4.0)).norm();
    let diff = q2 * q1.conjugate();

    let error = quat_error(diff * q1, q2);

    assert!(error < 0.0001);
}

#[test]
fn pow_quat() {
    let error = quat_error(Quat::id().pow(fx(0.1)), Quat::id());

    println!("Error: {}", error);
    assert!(error < 0.0001);

    let q1 = Quat::new(fx(-4.0), fx(-3.0), fx(-2.0), fx(-1.0)).norm();

    let error = quat_error(q1.pow(fx(0.5)) * q1.pow(fx(0.5)), q1);

    println!("Error: {}", error);
    assert!(error < 0.1);
}

#[test]
fn quat_eq() {
    let q1 = Quat::new(fx(-1.0), fx(-2.0), fx(-3.0), fx(-4.0)).norm();

    assert_eq!(q1, q1);

    let q2 = Quat::new(fx(1.0), fx(2.0), fx(3.0), fx(4.0)).norm();

    assert_eq!(q2, q2);
    assert_eq!(q1, q2);

    let q3 = Quat::new(fx(4.0), fx(3.0), fx(2.0), fx(1.0)).norm();

    assert_ne!(q1, q3);
    assert_ne!(q2, q3);
}

#[test]
fn norm_quat() {
    let error = (fl(Quat::id().norm().mag()) - fl(Quat::id().mag())).abs();

    println!("Error: {}", error);
    assert!(error < 0.0001);

    let quat = Quat::new(fx(-1.), fx(3.), fx(5.), fx(0.));
    let error = (fl(quat.norm().mag()) - 1.).abs();

    println!("Error: {}", error);
    assert!(error < 0.0001);
}

#[test]
fn norm_vec() {
    let error = (fl(Vec3::up().norm().mag()) - fl(Vec3::up().mag())).abs();

    println!("Error: {}", error);
    assert!(error < 0.0001);

    let vec = vec3(-1., 3., 5.);
    let error = (fl(vec.norm().mag()) - 1.).abs();

    println!("Error: {}", error);
    assert!(error < 0.0001);
}

#[test]
fn cross_vec() {
    assert!(Vec3::right().cross(Vec3::up()) == Vec3::fwd());
}

#[test]
fn vector_arithmetic_is_componentwise() {
    let a = vec3(1., 2., 3.);
    let b = vec3(-4., 0.5, 2.);
    assert_eq!(a + b, vec3(-3., 2.5, 5.));
    assert_eq!(a - b, vec3(5., 1.5, 1.));
    assert_eq!(-a, vec3(-1., -2., -3.));
    assert_eq!(a * fx(2.), vec3(2., 4., 6.));
    assert_eq!(a / fx(2.), vec3(0.5, 1., 1.5));
    assert_eq!(a.dot(b), fx(3.));
    assert_eq!(a.cross(b), vec3(2.5, -14., 8.5));
    assert_eq!(a.lerp(b, fx(0.5)), vec3(-1.5, 1.25, 2.5));
    assert_eq!(a.mag_squared(), fx(14.));
    assert_eq!(a.dist_squared(b), fx(28.25));
}

#[test]
fn length_is_exact_for_tiny_and_whole_vectors() {
    assert_eq!(vec3(3., 4., 0.).mag(), fx(5.));
    assert_eq!(vec3(3., 0., 0.).dist(vec3(0., 4., 0.)), fx(5.));
    let tiny = Vec3::new(Fixed::from_raw(3), Fixed::from_raw(4), Fixed::zero());
    assert_eq!(tiny.mag(), Fixed::from_raw(5));
    assert_eq!(tiny.norm(), vec3(0.6, 0.8, 0.));
    let huge = Vec3::new(
        Fixed::from_raw(i64::MAX),
        Fixed::from_raw(i64::MIN),
        Fixed::from_raw(i64::MAX),
    );
    assert_eq!(huge.mag(), Fixed::from_raw(i64::MAX));
}

#[test]
fn a_vector_without_length_is_kept_by_norm() {
    assert_eq!(Vec3::zero().norm(), Vec3::zero());
    assert_eq!(Vec2::new(fx(0.), fx(0.)).norm(), Vec2::new(fx(0.), fx(0.)));
    let zero = Quat::new(fx(0.), fx(0.), fx(0.), fx(0.));
    assert!(zero.norm() == zero);
}

#[test]
fn plane_vectors() {
    assert_eq!(Vec2::up().dot(Vec2::right()), fx(0.));
    assert_eq!(Vec2::new(fx(3.), fx(4.)).norm(), Vec2::new(fx(0.6), fx(0.8)));
    assert_eq!(Vec2::new(fx(3.), fx(4.)).mag_squared(), fx(25.));
    assert_eq!(Vec2::new(fx(3.), fx(4.)).dot(Vec2::new(fx(-1.), fx(2.))), fx(5.));
}

#[test]
fn planes_and_lines() {
    let plane = Plane::new(vec3(0., 2., 0.), fx(1.));
    assert_eq!(plane, Plane::new_raw(vec3(0., 1., 0.), fx(1.)));
    assert_eq!(plane.distance(vec3(5., 0.3, -2.)), fx(1.3));
    assert!(plane.contains(vec3(0., 0.5, 0.)));
    assert!(!plane.contains(vec3(0., 0., 0.)));
    assert!(plane.intersects(vec3(0., 1., 0.), vec3(0., -2., 0.)));
    assert!(!plane.intersects(vec3(0., 1., 0.), vec3(0., -1., 0.)));
    let line = Line::new(vec3(1., 2., 3.), vec3(4., 5., 6.));
    assert_eq!(line.start, vec3(1., 2., 3.));
    assert_eq!(line.end, vec3(4., 5., 6.));
}

#[test]
fn transpose_and_axes() {
    let r = vec3(1., 2., 3.);
    let u = vec3(4., 5., 6.);
    let f = vec3(7., 8., 9.);
    assert!(Mat::axes(r, u, f).transpose() == Mat::inverse_axes(r, u, f));
    assert!(Mat::id().transpose() == Mat::id());
    assert_eq!(Mat::axes(r, u, f) * Vec3::right(), r);
    assert_eq!(Mat::axes(r, u, f) * Vec3::up(), u);
    assert_eq!(Mat::axes(r, u, f) * Vec3::fwd(), f);
    assert!(Mat::translation_vec(r) == Mat::translation(fx(1.), fx(2.), fx(3.)));
    assert!(Mat::scale_vec(r) == Mat::scale(fx(1.), fx(2.), fx(3.)));
}

#[test]
fn rotations_compose_and_come_apart() {
    let (x, y, z) = (0.3, -0.4, 0.5);
    let m = Mat::rotation(fx(x), fx(y), fx(z));
    let product = Mat::rotation_x(fx(x)) * Mat::rotation_y(fx(y)) * Mat::rotation_z(fx(z));
    assert!(m == product);
    let (ax, ay, az) = m.to_cardan();
    assert!((fl(ax) - x).abs() < 1e-6);
    assert!((fl(ay) - y).abs() < 1e-6);
    assert!((fl(az) - z).abs() < 1e-6);
    let (sx, sy, sz) = m.to_cardan_safe();
    assert!((fl(sx) - x).abs() < 1e-6);
    assert!((fl(sy) - y).abs() < 1e-6);
    let (cx, sn) = (x.cos(), x.sin());
    let third = (sn * fl(m.z0) - cx * fl(m.y0)).atan2(cx * fl(m.y1) - sn * fl(m.z1));
    assert!((fl(sz) - third).abs() < 1e-6);
}

#[test]
fn view_and_projection() {
    let view = Mat::look_at_view(vec3(0., 0., -2.), vec3(0., 0., 0.), Vec3::up());
    assert_eq!(view * vec3(0., 0., 0.), vec3(0., 0., 2.));
    assert_eq!(view * vec3(1., 1., -2.), vec3(1., 1., 0.));
    let projection = Mat::perspective(fx(90.), fx(2.), fx(1.), fx(5.));
    assert!((fl(projection.y1) + 1.).abs() < 1e-6);
    assert!((fl(projection.x0) - 0.5).abs() < 1e-6);
    assert_eq!(projection.z2, fx(0.25));
    assert_eq!(projection.z3, fx(-0.25));
    assert_eq!(projection.w2, fx(1.));
}

#[test]
fn quaternion_pieces() {
    let q = Quat::new(fx(1.), fx(2.), fx(3.), fx(4.));
    assert!(q.conjugate() == Quat::new(fx(-1.), fx(-2.), fx(-3.), fx(4.)));
    assert_eq!(q.mag_squared(), fx(30.));
    assert!(q + q == Quat::new(fx(2.), fx(4.), fx(6.), fx(8.)));
    assert!(q * fx(0.5) == Quat::new(fx(0.5), fx(1.), fx(1.5), fx(2.)));
    assert_eq!(Quat::new(fx(0.), fx(3.), fx(0.), fx(4.)).mag(), fx(5.));
    assert!(Quat::half_turn() == Quat::new(fx(0.), fx(1.), fx(0.), fx(0.)));
}

#[test]
fn axis_and_angle_come_back() {
    let q = Quat::axis_angle(vec3(0., 0., 2.), fx(1.2));
    let (axis, angle) = q.to_axis_angle();
    assert!(vec3_error(axis, vec3(0., 0., 1.)) < 1e-6);
    assert!((fl(angle) - 1.2).abs() < 1e-6);
    assert!((fl(q.angle()) - 1.2).abs() < 1e-6);
    let (axis, angle) = Quat::id().to_axis_angle_raw();
    assert_eq!(axis, Vec3::zero());
    assert_eq!(angle, fx(0.));
    let raw = Quat::axis_angle_raw(Vec3::up(), fx(0.));
    assert!(raw == Quat::id());
}

#[test]
fn shortest_rotation_between_directions() {
    let q = Quat::simple(Vec3::fwd(), Vec3::right());
    assert!(vec3_error(q * Vec3::fwd(), Vec3::right()) < 1e-6);
    assert!(Quat::simple(Vec3::fwd(), -Vec3::fwd()) == Quat::half_turn());
    assert!(Quat::simple(Vec3::up(), Vec3::up()) == Quat::id());
}

#[test]
fn a_fraction_of_a_rotation() {
    let q = Quat::axis_angle(Vec3::up(), fx(1.0));
    let third = q.pow(fx(1.0) / fx(4.0));
    let expected = Quat::axis_angle(Vec3::up(), fx(0.25));
    assert!(quat_error(third, expected) < 1e-6);
    let doubled = q.pow(fx(2.0));
    assert!(quat_error(doubled, Quat::axis_angle(Vec3::up(), fx(2.0))) < 1e-6);
}

#[test]
fn a_matrix_without_scalar_part_gives_the_half_turn() {
    let m = Mat::scale(fx(-1.), fx(1.), fx(-1.));
    assert!(Quat::from_mat(m) == Quat::half_turn());
    assert!(Quat::from_mat(Mat::id()) == Quat::id());
}

#[test]
fn a_unit_vector_stays_within_one() {
    let huge = Vec3::new(
        Fixed::from_raw(i64::MIN),
        Fixed::from_raw(i64::MAX),
        Fixed::from_raw(1),
    );
    let unit = huge.norm();
    assert_eq!(unit, Vec3::new(fx(-1.), fx(1.), fx(0.)));
    let unit = vec3(1e-9, -2e-9, 2e-9).norm();
    assert_eq!(unit, Vec3::new(Fixed::from_raw(333_333_333), Fixed::from_raw(-666_666_666), Fixed::from_raw(666_666_666)));
}
