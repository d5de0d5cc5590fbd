use softbody::alg::Mat;
use softbody::alg::Quat;
use softbody::alg::Vec3;
use softbody::body::Instance;
use softbody::fixed::Fixed;
use softbody::fixed::SCALE;
use softbody::joint::anchor;
use softbody::joint::limit_twist;
use softbody::joint::solve;
use softbody::joint::Cone;
use softbody::joint::Joint;
use softbody::joint::Range;
use softbody::joint::ReachPlane;
use softbody::manager::Manager;

fn fx(v: f64) -> Fixed {
    Fixed::from_raw((v * SCALE as f64).round() as i64)
}

fn fl(v: Fixed) -> f64 {
    v.raw as f64 / SCALE as f64
}

fn vec3(x: f64, y: f64, z: f64) -> Vec3 {
    Vec3::new(fx(x), fx(y), fx(z))
}

fn close(a: Vec3, b: Vec3, within: f64) -> bool {
    (fl(a.x) - fl(b.x)).abs() < within
        && (fl(a.y) - fl(b.y)).abs() < within
        && (fl(a.z) - fl(b.z)).abs() < within
}

fn degrees(min: f64, max: f64) -> Range {
    Range { min: fx(min).to_radians(), max: fx(max).to_radians() }
}

fn corners(turn: Mat, shift: Vec3) -> Vec<Vec3> {
    let base = [
        vec3(-0.5, 0.5, -1.),
        vec3(0.5, 0.5, -1.),
        vec3(0.5, -0.5, -1.),
        vec3(-0.5, -0.5, -1.),
        vec3(-0.5, 0.5, 1.),
        vec3(0.5, 0.5, 1.),
        vec3(0.5, -0.5, 1.),
        vec3(-0.5, -0.5, 1.),
    ];
    base.iter().map(|&corner| turn * corner + shift).collect()
}

fn edges() -> Vec<(usize, usize)> {
    vec![
        (0, 1), (1, 2), (2, 3), (3, 0),
        (4, 5), (5, 6), (6, 7), (7, 4),
        (0, 4), (1, 5), (2, 6), (3, 7),
        (0, 2), (0, 5), (0, 7),
        (6, 4), (6, 1), (6, 3),
    ]
}

fn limb(turn: Mat, shift: Vec3) -> Instance {
    Instance::new(&corners(turn, shift), &edges(), &[], fx(1.), fx(0.5), Vec3::zero())
}

fn seen_from(parent: &Instance, child: &Instance) -> Quat {
    Quat::from_mat(parent.inverse_orientation() * child.orientation())
}

#[test]
fn the_faces_and_axes_of_a_limb() {
    let body = limb(Mat::id(), vec3(1., 2., 3.));
    assert_eq!(body.start(), vec3(1., 2., 2.));
    assert_eq!(body.end(), vec3(1., 2., 4.));
    assert_eq!(body.top(), vec3(1., 2.5, 3.));
    assert_eq!(body.bot(), vec3(1., 1.5, 3.));
    assert_eq!(body.right_side(), vec3(1.5, 2., 3.));
    assert_eq!(body.left_side(), vec3(0.5, 2., 3.));
    assert_eq!(body.fwd(), Vec3::fwd());
    assert_eq!(body.up(), Vec3::up());
    assert_eq!(body.right(), Vec3::right());
    assert!(body.orientation() == Mat::id());
    assert!(body.inverse_orientation() == Mat::id());
}

#[test]
fn the_frame_of_a_turned_limb() {
    let turn = Mat::rotation_y(fx(0.7));
    let body = limb(turn, Vec3::zero());
    let frame = body.orientation();
    assert!(close(frame * Vec3::fwd(), turn * Vec3::fwd(), 1e-6));
    assert!(close(frame * Vec3::up(), turn * Vec3::up(), 1e-6));
    assert!(close(frame * Vec3::right(), turn * Vec3::right(), 1e-6));
    assert!(body.inverse_orientation() == frame.transpose());
}

#[test]
fn corners_are_moved_and_the_rest_left_alone() {
    let mut points = corners(Mat::id(), Vec3::zero());
    points.push(vec3(9., 9., 9.));
    let mut body = Instance::new(&points, &[], &[], fx(1.), fx(0.5), Vec3::zero());
    body.shift(vec3(1., 0., 0.));
    assert_eq!(body.particles[0].position, vec3(0.5, 0.5, -1.));
    assert_eq!(body.particles[8].position, vec3(9., 9., 9.));
    body.shift_back(vec3(1., 0., 0.));
    assert_eq!(body.particles[0].position, vec3(-0.5, 0.5, -1.));
    body.transform_around(vec3(0., 0., -1.), Mat::scale(fx(2.), fx(2.), fx(2.)));
    assert_eq!(body.particles[0].position, vec3(-1., 1., -1.));
    assert_eq!(body.particles[4].position, vec3(-1., 1., 3.));
    assert_eq!(body.particles[8].position, vec3(9., 9., 9.));
    assert_eq!(body.particles[0].last, vec3(-0.5, 0.5, -1.));
}

#[test]
fn a_limb_turns_about_its_ends() {
    let mut body = limb(Mat::id(), Vec3::zero());
    body.rotate_start(fx(0.), fx(0.), fx(0.5));
    assert!(close(body.start(), vec3(0., 0., -1.), 1e-6));
    assert!(close(body.end(), vec3(0., 0., 1.), 1e-6));
    let turned = Mat::rotation_z(fx(0.5)) * vec3(-0.5, 0.5, 0.) + vec3(0., 0., -1.);
    assert!(close(body.particles[0].position, turned, 1e-6));
    let mut body = limb(Mat::id(), Vec3::zero());
    body.rotate_end(fx(0.3), fx(0.), fx(0.));
    assert!(close(body.end(), vec3(0., 0., 1.), 1e-6));
    let start = Mat::rotation_x(fx(0.3)) * vec3(0., 0., -2.) + vec3(0., 0., 1.);
    assert!(close(body.start(), start, 1e-6));
    let mut body = limb(Mat::id(), Vec3::zero());
    body.rotate_around(vec3(1., 0., 0.), fx(0.), fx(0.4), fx(0.));
    let moved = Mat::rotation_y(fx(0.4)) * vec3(-1.5, 0.5, -1.) + vec3(1., 0., 0.);
    assert!(close(body.particles[0].position, moved, 1e-6));
}

#[test]
fn a_face_of_the_cone() {
    let face = ReachPlane::new(Vec3::right(), Vec3::fwd());
    assert_eq!(face.normal, vec3(0., -1., 0.));
    assert!(face.contains(vec3(0., -0.5, 1.)));
    assert!(face.contains(vec3(0., 0., 1.)));
    assert!(face.contains(vec3(0., 0.0001, 1.)));
    assert!(!face.contains(vec3(0., 0.0002, 1.)));
    assert!(face.intersects(vec3(0., 0.5, 0.)));
    assert!(!face.intersects(vec3(0., -0.5, 0.)));
    assert!(!face.intersects(vec3(0., 0., 0.)));
}

#[test]
fn the_crossing_of_a_ray_with_a_face() {
    let face = ReachPlane { normal: vec3(0., -1., 1.) };
    let crossing = face.intersection(vec3(0., 1., 0.));
    assert!(close(crossing, vec3(0., 1., 0.), 1e-6));
    assert!(fl(face.normal.dot(crossing + Vec3::fwd())).abs() < 1e-6);
}

#[test]
fn the_cone_of_a_joint() {
    let cone = Cone::of(degrees(-45., 45.), degrees(-45., 45.));
    assert!(cone.contains(Vec3::fwd()));
    assert!(cone.contains(vec3(0.3, 0.3, 1.).norm()));
    assert!(!cone.contains(vec3(0., 1., 0.2).norm()));
    assert!(!cone.contains(vec3(-1., 0., 0.2).norm()));
    let flat = Cone::of(degrees(0., 0.), degrees(0., 0.));
    assert_eq!(flat.lower_left.normal, Vec3::zero());
    assert!(flat.contains(vec3(0., 1., 0.)));
}

#[test]
fn a_swing_inside_the_cone_is_kept() {
    let cone = Cone::of(degrees(-45., 45.), degrees(-45., 45.));
    let inside = vec3(0.2, 0.1, 1.).norm();
    let swing = Quat::simple(Vec3::fwd(), inside);
    assert!(cone.limit_swing(swing, inside) == swing);
}

#[test]
fn a_swing_outside_the_cone_is_brought_back() {
    let cone = Cone::of(degrees(-30., 30.), degrees(-30., 30.));
    let outside = vec3(0., 1., 1.).norm();
    assert!(!cone.contains(outside));
    let swing = Quat::simple(Vec3::fwd(), outside);
    let held = cone.limit_swing(swing, outside);
    let reached = held * Vec3::fwd();
    assert!(fl(reached.y) > 0.05);
    assert!(fl(reached.y) < fl(outside.y));
    assert!(fl(reached.x).abs() < 1e-6);
    assert!(cone.contains(reached));
}

#[test]
fn the_last_candidate_inside_the_cone_is_picked() {
    let cone = Cone::of(degrees(-45., 45.), degrees(-45., 45.));
    let good = vec3(0.1, 0.1, 0.);
    let also_good = vec3(-0.1, 0.1, 0.);
    let bad = vec3(0., 5., 0.);
    assert_eq!(cone.pick(&vec![bad]), bad);
    assert_eq!(cone.pick(&vec![good, bad]), good);
    assert_eq!(cone.pick(&vec![bad, good]), good);
    assert_eq!(cone.pick(&vec![good, also_good, bad]), also_good);
    assert_eq!(cone.pick(&vec![bad, bad + bad]), bad);
}

#[test]
fn candidates_come_in_the_order_of_the_faces() {
    let cone = Cone::of(degrees(-45., 45.), degrees(-45., 45.));
    assert!(cone.candidates(Vec3::zero()).is_empty());
    let up = cone.candidates(vec3(0., 1., 0.));
    assert_eq!(up.len(), 2);
    assert_eq!(up[0], cone.upper_right.intersection(vec3(0., 1., 0.)));
    assert_eq!(up[1], cone.upper_left.intersection(vec3(0., 1., 0.)));
}

#[test]
fn a_twist_is_held_inside_its_range() {
    let twist = Quat::axis_angle(Vec3::fwd(), fx(0.8));
    let held = limit_twist(twist, Quat::id(), Vec3::fwd(), degrees(-10., 10.));
    let (axis, angle) = held.to_axis_angle();
    assert!(close(axis, Vec3::fwd(), 1e-6));
    assert!((fl(angle) - 10f64.to_radians()).abs() < 1e-6);
    let free = limit_twist(twist, Quat::id(), Vec3::fwd(), degrees(-90., 90.));
    assert!((fl(free.angle()) - 0.8).abs() < 1e-6);
    let none = limit_twist(twist, Quat::id(), Vec3::fwd(), degrees(0., 0.));
    assert!(none == Quat::id());
}

#[test]
fn a_new_joint_holds_what_it_was_given() {
    let joint = Joint::new(1, 2, degrees(-1., 1.), degrees(-2., 2.), degrees(-3., 3.));
    assert_eq!(joint.parent, 1);
    assert_eq!(joint.child, 2);
    assert_eq!(joint.x_limit, degrees(-1., 1.));
    assert_eq!(joint.y_limit, degrees(-2., 2.));
    assert_eq!(joint.z_limit, degrees(-3., 3.));
}

#[test]
fn anchoring_pulls_start_and_end_together() {
    let mut parent = limb(Mat::id(), Vec3::zero());
    let mut child = limb(Mat::id(), vec3(0., 0., 3.));
    anchor(&mut parent, &mut child);
    assert_eq!(parent.end(), vec3(0., 0., 1.499));
    assert_eq!(child.start(), vec3(0., 0., 1.501));
}

#[test]
fn limbs_in_line_are_left_in_line() {
    let mut parent = limb(Mat::id(), Vec3::zero());
    let mut child = limb(Mat::id(), vec3(0., 0., 2.));
    let joint = Joint::new(0, 1, degrees(-45., 45.), degrees(-45., 45.), degrees(-45., 45.));
    for _ in 0..10 {
        solve(&mut parent, &mut child, &joint);
    }
    for k in 0..8 {
        assert!(close(parent.particles[k].position, corners(Mat::id(), Vec3::zero())[k], 1e-6));
        assert!(close(child.particles[k].position, corners(Mat::id(), vec3(0., 0., 2.))[k], 1e-6));
    }
}

#[test]
fn a_rigid_joint_undoes_a_twist() {
    let mut parent = limb(Mat::id(), Vec3::zero());
    let mut child = limb(Mat::rotation_z(fx(0.5)), vec3(0., 0., 2.));
    let joint = Joint::new(0, 1, degrees(0., 0.), degrees(0., 0.), degrees(0., 0.));
    let before = seen_from(&parent, &child);
    assert!((fl(before.angle()) - 0.5).abs() < 1e-6);
    for _ in 0..20 {
        solve(&mut parent, &mut child, &joint);
    }
    let after = seen_from(&parent, &child);
    assert!(close(after * Vec3::fwd(), Vec3::fwd(), 1e-4));
    assert!(close(after * Vec3::up(), Vec3::up(), 1e-4));
    assert!(close(child.start(), parent.end(), 1e-4));
}

#[test]
fn a_rigid_joint_undoes_a_twist_in_simulation() {
    let mut manager = Manager::new(2, 1, 0);
    manager.set_gravity(Vec3::zero());
    manager.register(1);
    manager.init_instance(0, fx(1.), fx(1.), &corners(Mat::id(), Vec3::zero()), &edges(), &[]);
    manager.init_instance(
        1,
        fx(1.),
        fx(1.),
        &corners(Mat::rotation_z(fx(0.5)), vec3(0., 0., 2.)),
        &edges(),
        &[],
    );
    manager.add_joint(0, 1, (fx(0.), fx(0.)), (fx(0.), fx(0.)), (fx(0.), fx(0.)));
    for _ in 0..400 {
        manager.simulate();
    }
    let mut parent = Vec::new();
    let mut child = Vec::new();
    for k in 0..8 {
        parent.push(manager.get_particle(0, k));
        child.push(manager.get_particle(1, k));
    }
    let parent = Instance::new(&parent, &edges(), &[], fx(1.), fx(0.5), Vec3::zero());
    let child = Instance::new(&child, &edges(), &[], fx(1.), fx(0.5), Vec3::zero());
    let after = seen_from(&parent, &child);
    println!("{:?}", after);
    assert!(close(after * Vec3::fwd(), Vec3::fwd(), 1e-3));
    assert!(close(after * Vec3::up(), Vec3::up(), 1e-3));
    assert!(close(child.start(), parent.end(), 1e-3));
}

#[test]
fn a_joint_holds_a_twist_inside_its_range() {
    let mut parent = limb(Mat::id(), Vec3::zero());
    let mut child = limb(Mat::rotation_z(fx(0.5)), vec3(0., 0., 2.));
    let joint = Joint::new(0, 1, degrees(-45., 45.), degrees(-45., 45.), degrees(-10., 10.));
    for _ in 0..20 {
        solve(&mut parent, &mut child, &joint);
    }
    let after = seen_from(&parent, &child);
    assert!(close(after * Vec3::fwd(), Vec3::fwd(), 1e-4));
    assert!((fl(after.angle()) - 10f64.to_radians()).abs() < 1e-4);
}

#[test]
fn a_joint_brings_a_swing_back_into_its_cone() {
    let mut parent = limb(Mat::id(), Vec3::zero());
    let mut child = limb(Mat::id(), vec3(0., 0., 2.));
    child.rotate_start(fx(-1.0), fx(0.), fx(0.));
    let cone = Cone::of(degrees(-30., 30.), degrees(-30., 30.));
    assert!(!cone.contains(seen_from(&parent, &child) * Vec3::fwd()));
    let joint = Joint::new(0, 1, degrees(-30., 30.), degrees(-30., 30.), degrees(-30., 30.));
    for _ in 0..40 {
        solve(&mut parent, &mut child, &joint);
    }
    let forward = seen_from(&parent, &child) * Vec3::fwd();
    println!("{:?}", forward);
    assert!(cone.contains(forward));
    assert!(close(child.start(), parent.end(), 1e-3));
}

#[test]
fn limits_of_zero_leave_every_swing_alone() {
    let flat = Cone::of(degrees(0., 0.), degrees(0., 0.));
    let far = vec3(0., 1., -1.).norm();
    let swing = Quat::simple(Vec3::fwd(), far);
    assert!(flat.limit_swing(swing, far) == swing);
}
