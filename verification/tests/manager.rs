use softbody::alg::Plane;
use softbody::alg::Vec3;
use softbody::body::Falloff;
use softbody::fixed::Fixed;
use softbody::fixed::SCALE;
use softbody::manager::AxesMark;
use softbody::manager::Manager;
use softbody::manager::RodMark;
use softbody::tuning::MAX_SOFTBODY_VERT;

fn fx(v: f64) -> Fixed {
    Fixed::from_raw((v * SCALE as f64).round() as i64)
}

fn vec3(x: f64, y: f64, z: f64) -> Vec3 {
    Vec3::new(fx(x), fx(y), fx(z))
}

fn weightless() -> Manager {
    let mut manager = Manager::new(4, 2, 2);
    manager.set_gravity(Vec3::zero());
    manager
}

fn no_limits() -> (Fixed, Fixed) {
    (fx(0.), fx(0.))
}

#[test]
fn registering_grows_the_slots() {
    let mut manager = Manager::new(0, 0, 0);
    assert_eq!(manager.count(), 0);
    manager.register(2);
    assert_eq!(manager.count(), 3);
    manager.register(1);
    assert_eq!(manager.count(), 3);
    manager.register(3);
    assert_eq!(manager.count(), 4);
    assert_eq!(manager.particle_count(0), None);
}

#[test]
fn an_empty_slot_answers_with_the_origin() {
    let mut manager = Manager::new(1, 0, 0);
    manager.register(0);
    assert_eq!(manager.get_particle(0, 5), Vec3::zero());
    manager.set_force(0, vec3(1., 1., 1.));
    manager.set_magnet(0, 7, vec3(1., 1., 1.));
    assert!(manager.simulate().is_empty());
}

#[test]
fn a_body_is_made_in_its_slot() {
    let mut manager = Manager::new(1, 0, 0);
    manager.register(1);
    manager.init_instance(
        1,
        fx(10.),
        fx(0.06),
        &[vec3(0., 0.5, 0.), vec3(0.5, -0.5, -0.5), vec3(-0.5, -0.5, -0.5)],
        &[(0, 1), (1, 2), (2, 0)],
        &[],
    );
    assert_eq!(manager.particle_count(1), Some(3));
    assert_eq!(manager.particle_count(0), None);
    assert_eq!(manager.magnet_count(1), Some(0));
    assert_eq!(manager.magnet_count(0), None);
    assert_eq!(manager.get_particle(1, 0), vec3(0., 0.5, 0.));
    assert_eq!(manager.get_particle(1, 2), vec3(-0.5, -0.5, -0.5));
}

#[test]
fn making_a_body_again_replaces_it() {
    let mut manager = Manager::new(1, 0, 0);
    manager.register(0);
    manager.init_instance(0, fx(1.), fx(1.), &[vec3(1., 1., 1.)], &[], &[]);
    manager.init_instance(0, fx(1.), fx(1.), &[vec3(2., 2., 2.), vec3(3., 3., 3.)], &[], &[]);
    assert_eq!(manager.particle_count(0), Some(2));
    assert_eq!(manager.get_particle(0, 0), vec3(2., 2., 2.));
}

#[test]
fn a_limb_is_a_box_of_eight_corners() {
    let mut manager = Manager::new(1, 0, 0);
    manager.register(0);
    manager.init_limb(0, fx(1.), fx(1.), vec3(1., 2., 4.));
    assert_eq!(manager.particle_count(0), Some(8));
    assert_eq!(manager.get_particle(0, 0), vec3(-0.5, 1., -2.));
    assert_eq!(manager.get_particle(0, 1), vec3(0.5, 1., -2.));
    assert_eq!(manager.get_particle(0, 2), vec3(0.5, -1., -2.));
    assert_eq!(manager.get_particle(0, 3), vec3(-0.5, -1., -2.));
    assert_eq!(manager.get_particle(0, 4), vec3(-0.5, 1., 2.));
    assert_eq!(manager.get_particle(0, 5), vec3(0.5, 1., 2.));
    assert_eq!(manager.get_particle(0, 6), vec3(0.5, -1., 2.));
    assert_eq!(manager.get_particle(0, 7), vec3(-0.5, -1., 2.));
}

#[test]
fn a_particle_falls_under_the_default_gravity() {
    let mut manager = Manager::new(1, 0, 0);
    manager.register(0);
    manager.init_instance(0, fx(1.), fx(1.), &[vec3(0., 0., 0.)], &[], &[]);
    let written = manager.simulate();
    assert_eq!(manager.get_particle(0, 0), vec3(0., -0.00098, 0.));
    assert_eq!(written, vec![(0, vec3(0., -0.00098, 0.))]);
    manager.simulate();
    assert_eq!(manager.get_particle(0, 0), vec3(0., -0.00294, 0.));
}

#[test]
fn raw_gravity_waits_for_a_force_to_be_set() {
    let mut manager = Manager::new(1, 0, 0);
    manager.register(0);
    manager.init_instance(0, fx(1.), fx(1.), &[vec3(0., 0., 0.)], &[], &[]);
    manager.simulate();
    manager.set_gravity_raw(Vec3::zero());
    manager.simulate();
    assert_eq!(manager.get_particle(0, 0), vec3(0., -0.00294, 0.));
    manager.set_force(0, Vec3::zero());
    manager.simulate();
    assert_eq!(manager.get_particle(0, 0), vec3(0., -0.0049, 0.));
}

#[test]
fn raw_gravity_waits_for_gravity_to_be_set_in_full() {
    let mut manager = Manager::new(2, 0, 0);
    manager.register(1);
    manager.init_instance(0, fx(1.), fx(1.), &[vec3(0., 0., 0.)], &[], &[]);
    manager.init_instance(1, fx(1.), fx(1.), &[vec3(5., 0., 0.)], &[], &[]);
    manager.set_gravity_raw(vec3(0., 0., 100.));
    manager.simulate();
    assert_eq!(manager.get_particle(0, 0), vec3(0., -0.00098, 0.));
    assert_eq!(manager.get_particle(1, 0), vec3(5., -0.00098, 0.));
    manager.set_gravity(vec3(0., 0., 100.));
    manager.simulate();
    assert_eq!(manager.get_particle(0, 0), vec3(0., -0.00196, 0.01));
    assert_eq!(manager.get_particle(1, 0), vec3(5., -0.00196, 0.01));
}

#[test]
fn a_body_made_after_raw_gravity_starts_with_the_new_gravity() {
    let mut manager = Manager::new(1, 0, 0);
    manager.register(0);
    manager.set_gravity_raw(vec3(10., 0., 0.));
    manager.init_instance(0, fx(1.), fx(1.), &[vec3(0., 0., 0.)], &[], &[]);
    manager.simulate();
    assert_eq!(manager.get_particle(0, 0), vec3(0.001, 0., 0.));
}

#[test]
fn a_force_is_divided_by_the_mass() {
    let mut manager = weightless();
    manager.register(0);
    manager.init_instance(0, fx(10.), fx(1.), &[vec3(0., 0., 0.)], &[], &[]);
    manager.set_force(0, vec3(0., 4400., 0.));
    manager.simulate();
    assert_eq!(manager.get_particle(0, 0), vec3(0., 0.044, 0.));
}

#[test]
fn the_rigidity_of_a_body_is_halved() {
    let mut manager = weightless();
    manager.register(0);
    manager.init_instance(
        0,
        fx(1.),
        fx(1.),
        &[vec3(0., 0., 0.), vec3(1., 0., 0.)],
        &[(0, 1)],
        &[(1, Falloff::Snap)],
    );
    manager.set_magnet(0, 0, vec3(2., 0., 0.));
    manager.simulate();
    assert_eq!(manager.get_particle(0, 1), vec3(2., 0., 0.));
    manager.set_magnet(0, 0, vec3(3., 0., 0.));
    manager.simulate();
    assert_eq!(manager.get_particle(0, 0), vec3(1., 0., 0.));
    assert_eq!(manager.get_particle(0, 1), vec3(3., 0., 0.));
}

#[test]
fn a_plane_pushes_back_by_the_bounce() {
    let mut manager = weightless();
    manager.register(0);
    manager.add_plane(Plane::new(vec3(0., 2., 0.), fx(1.)));
    manager.init_instance(0, fx(1.), fx(1.), &[vec3(0., -3., 0.), vec3(0., 3., 0.)], &[], &[]);
    manager.simulate();
    assert_eq!(manager.get_particle(0, 0), vec3(0., -2.9, 0.));
    assert_eq!(manager.get_particle(0, 1), vec3(0., 3., 0.));
}

#[test]
fn offsets_are_padded_with_zeros() {
    let mut manager = weightless();
    manager.register(1);
    manager.init_instance(
        1,
        fx(1.),
        fx(1.),
        &[vec3(0., 0., 0.), vec3(2., 0., 0.)],
        &[],
        &[(1, Falloff::Snap)],
    );
    let offsets = manager.get_offsets(1);
    assert_eq!(offsets.len(), MAX_SOFTBODY_VERT);
    assert_eq!(offsets[0], vec3(0., 0., 0.));
    assert_eq!(offsets[1], vec3(0., 0., 0.));
    manager.set_magnet(1, 0, vec3(4., 2., 0.));
    let written = manager.simulate();
    assert_eq!(written, vec![(1, vec3(2., 1., 0.))]);
    let offsets = manager.get_offsets(1);
    assert_eq!(offsets[0], vec3(-2., -1., 0.));
    assert_eq!(offsets[1], vec3(0., 1., 0.));
    for k in 2..MAX_SOFTBODY_VERT {
        assert_eq!(offsets[k], Vec3::zero());
    }
    assert_eq!(manager.get_offsets(0), vec![Vec3::zero(); MAX_SOFTBODY_VERT]);
    assert_eq!(manager.get_offsets(9), vec![Vec3::zero(); MAX_SOFTBODY_VERT]);
}

#[test]
fn centres_are_listed_by_rising_slot() {
    let mut manager = weightless();
    manager.register(3);
    manager.init_instance(3, fx(1.), fx(1.), &[vec3(3., 0., 0.), vec3(5., 0., 0.)], &[], &[]);
    manager.init_instance(1, fx(1.), fx(1.), &[vec3(0., 1., 0.)], &[], &[]);
    let written = manager.simulate();
    assert_eq!(written, vec![(1, vec3(0., 1., 0.)), (3, vec3(4., 0., 0.))]);
}

#[test]
fn a_joint_needs_both_its_bodies() {
    let mut manager = weightless();
    manager.register(2);
    manager.init_limb(0, fx(1.), fx(1.), vec3(1., 1., 1.));
    manager.add_joint(0, 1, no_limits(), no_limits(), no_limits());
    manager.add_joint(1, 0, no_limits(), no_limits(), no_limits());
    manager.add_joint(1, 2, no_limits(), no_limits(), no_limits());
    assert!(!manager.jointed(0));
    assert!(!manager.jointed(1));
    manager.init_limb(1, fx(1.), fx(1.), vec3(1., 1., 1.));
    manager.add_joint(0, 1, no_limits(), no_limits(), no_limits());
    assert!(manager.jointed(0));
    assert!(manager.jointed(1));
    assert!(!manager.jointed(2));
}

#[test]
fn a_limb_at_rest_is_unchanged_by_simulation() {
    let mut manager = weightless();
    manager.register(0);
    manager.add_plane(Plane::new(Vec3::up(), fx(5.)));
    manager.init_limb(0, fx(3.), fx(0.8), vec3(1., 0.5, 2.));
    let mut before = Vec::new();
    for k in 0..8 {
        before.push(manager.get_particle(0, k));
    }
    for _ in 0..50 {
        let written = manager.simulate();
        assert_eq!(written, vec![(0, Vec3::zero())]);
    }
    for k in 0..8 {
        assert_eq!(manager.get_particle(0, k), before[k]);
    }
    assert_eq!(manager.get_offsets(0), vec![Vec3::zero(); MAX_SOFTBODY_VERT]);
}

#[test]
fn strained_rods_are_marked_for_drawing() {
    let mut manager = weightless();
    manager.register(1);
    manager.init_instance(
        1,
        fx(1.),
        fx(1.),
        &[vec3(0., 0., 0.), vec3(1., 0., 0.), vec3(0., 2., 0.)],
        &[(0, 1), (0, 2)],
        &[(1, Falloff::Snap)],
    );
    let marks = manager.draw_debug(1);
    assert_eq!(
        marks.rods,
        vec![
            RodMark { left: vec3(0., 0., 0.), right: vec3(1., 0., 0.), strain: fx(0.) },
            RodMark { left: vec3(0., 0., 0.), right: vec3(0., 2., 0.), strain: fx(0.) },
        ]
    );
    assert!(marks.axes.is_empty());
    manager.set_magnet(1, 0, vec3(1.05, 0., 0.));
    manager.simulate();
    let marks = manager.draw_debug(1);
    assert_eq!(marks.rods[0].right, vec3(1.05, 0., 0.));
    assert_eq!(marks.rods[0].strain, fx(0.5));
    let empty = manager.draw_debug(0);
    assert!(empty.rods.is_empty());
    assert!(empty.axes.is_empty());
    let all = manager.draw_all_debug();
    assert_eq!(all.len(), 2);
    assert!(all[0].rods.is_empty());
    assert_eq!(all[1].rods, marks.rods);
}

#[test]
fn the_child_of_a_joint_is_marked_with_its_frame() {
    let mut manager = weightless();
    manager.register(1);
    manager.init_limb(0, fx(1.), fx(1.), vec3(1., 1., 2.));
    manager.init_limb(1, fx(1.), fx(1.), vec3(1., 1., 4.));
    manager.add_joint(0, 1, no_limits(), no_limits(), no_limits());
    assert!(manager.draw_debug(0).axes.is_empty());
    assert_eq!(manager.draw_debug(0).rods.len(), 18);
    assert_eq!(
        manager.draw_debug(1).axes,
        vec![AxesMark { origin: vec3(0., 0., -2.), fwd: Vec3::fwd(), up: Vec3::up() }]
    );
}
