use softbody::alg::Plane;
use softbody::alg::Vec3;
use softbody::body::accel_term;
use softbody::body::collide;
use softbody::body::count_as_fixed;
use softbody::body::deform_length;
use softbody::body::rod_offset;
use softbody::body::Falloff;
use softbody::body::Instance;
use softbody::body::Magnet;
use softbody::body::Particle;
use softbody::body::Rod;
use softbody::fixed::Fixed;
use softbody::fixed::SCALE;

fn fx(v: f64) -> Fixed {
    Fixed::from_raw((v * SCALE as f64).round() as i64)
}

fn vec3(x: f64, y: f64, z: f64) -> Vec3 {
    Vec3::new(fx(x), fx(y), fx(z))
}

fn pair(separation: f64, rest: f64, rigidity: f64) -> Instance {
    let left = Particle::new(vec3(0., 0., 0.));
    let right = Particle::new(vec3(separation, 0., 0.));
    Instance {
        particles: vec![left, right],
        rods: vec![Rod { left: 0, right: 1, length: fx(rest) }],
        magnets: vec![],
        force: Vec3::zero(),
        accel_dt: Vec3::zero(),
        position: Vec3::zero(),
        mass: fx(1.),
        model: vec![vec3(0., 0., 0.), vec3(separation, 0., 0.)],
        rigidity: fx(rigidity),
    }
}

fn tetrahedron() -> Instance {
    Instance::new(
        &[vec3(0., 0.5, 0.), vec3(0.5, -0.5, -0.5), vec3(-0.5, -0.5, -0.5), vec3(0., -0.5, 0.5)],
        &[(0, 1), (0, 2), (0, 3), (1, 2), (2, 3), (3, 1)],
        &[],
        fx(10.),
        fx(0.5),
        Vec3::zero(),
    )
}

#[test]
fn a_new_particle_is_at_rest() {
    let particle = Particle::new(vec3(1., -2., 3.));
    assert_eq!(particle.position, vec3(1., -2., 3.));
    assert_eq!(particle.last, vec3(1., -2., 3.));
}

#[test]
fn verlet_doubles_the_position_and_takes_the_last() {
    let particle = Particle { position: vec3(1., 2., 3.), last: vec3(0.5, 2., 3.5) };
    let moved = particle.advance(vec3(0., -0.001, 0.));
    assert_eq!(moved.position, vec3(1.5, 1.999, 2.5));
    assert_eq!(moved.last, vec3(1., 2., 3.));
}

#[test]
fn a_new_rod_rests_at_the_present_distance() {
    let particles = [Particle::new(vec3(0., 0., 0.)), Particle::new(vec3(3., 4., 0.))];
    let rod = Rod::new(0, 1, &particles);
    assert_eq!(rod, Rod { left: 0, right: 1, length: fx(5.) });
}

#[test]
fn a_new_magnet_aims_at_the_origin() {
    let magnet = Magnet::new(3, Falloff::Snap);
    assert_eq!(magnet, Magnet { target: Vec3::zero(), serf: 3, falloff: Falloff::Snap });
}

#[test]
fn the_acceleration_term_is_force_by_mass_plus_gravity_by_the_step_squared() {
    let term = accel_term(vec3(10., 0., 0.), fx(2.), vec3(0., -9.8, 0.));
    assert_eq!(term, vec3(0.0005, -0.00098, 0.));
}

#[test]
fn a_rod_twice_its_rest_length_relaxes_to_one_and_a_half() {
    let mut body = pair(2., 1., 0.25);
    body.project_rods();
    assert_eq!(body.particles[0].position, vec3(0.25, 0., 0.));
    assert_eq!(body.particles[1].position, vec3(1.75, 0., 0.));
    assert_eq!(body.particles[1].position.dist(body.particles[0].position), fx(1.5));
}

#[test]
fn a_whole_step_without_forces_relaxes_the_rod_the_same_way() {
    let mut body = pair(2., 1., 0.25);
    body.step(&[], fx(0.05), fx(1.), 1);
    assert_eq!(body.particles[1].position.dist(body.particles[0].position), fx(1.5));
    assert_eq!(body.rods[0].length, fx(1.));
}

#[test]
fn the_stiffest_rod_takes_up_all_its_error_in_one_pass() {
    let mut body = pair(2., 1., 0.5);
    body.project_rods();
    assert_eq!(body.particles[0].position, vec3(0.5, 0., 0.));
    assert_eq!(body.particles[1].position, vec3(1.5, 0., 0.));
}

#[test]
fn a_squeezed_rod_pushes_its_ends_apart() {
    let mut body = pair(1., 2., 0.5);
    body.project_rods();
    assert_eq!(body.particles[0].position, vec3(-0.5, 0., 0.));
    assert_eq!(body.particles[1].position, vec3(1.5, 0., 0.));
}

#[test]
fn a_rod_whose_ends_coincide_asks_nothing() {
    let offset = rod_offset(vec3(1., 1., 1.), vec3(1., 1., 1.), fx(1.), fx(0.5));
    assert_eq!(offset, Vec3::zero());
    let mut body = pair(0., 1., 0.5);
    body.project_rods();
    assert_eq!(body.particles[0].position, vec3(0., 0., 0.));
    assert_eq!(body.particles[1].position, vec3(0., 0., 0.));
}

#[test]
fn a_particle_in_front_of_a_plane_is_left_alone() {
    let floor = Plane::new_raw(vec3(0., 1., 0.), fx(0.));
    let position = vec3(2., 0.3, -1.);
    assert_eq!(floor.distance(position), fx(0.3));
    assert_eq!(collide(position, floor, fx(0.05)), position);
    assert_eq!(collide(position, floor, fx(1.)), position);
}

#[test]
fn a_particle_behind_a_plane_is_pushed_out_by_bounce_times_depth() {
    let floor = Plane::new_raw(vec3(0., 1., 0.), fx(0.));
    let position = vec3(2., -0.2, -1.);
    assert_eq!(collide(position, floor, fx(0.05)), vec3(2., -0.19, -1.));
    assert_eq!(collide(position, floor, fx(1.)), vec3(2., 0., -1.));
    assert_eq!(collide(position, floor, fx(2.)), vec3(2., 0.2, -1.));
    assert_eq!(collide(position, floor, fx(0.)), position);
    let wall = Plane::new_raw(vec3(-1., 0., 0.), fx(1.5));
    assert_eq!(collide(position, wall, fx(0.5)), vec3(1.75, -0.2, -1.));
}

#[test]
fn a_particle_on_a_plane_counts_as_behind_it() {
    let floor = Plane::new_raw(vec3(0., 1., 0.), fx(0.));
    assert_eq!(collide(vec3(1., 0., 1.), floor, fx(0.05)), vec3(1., 0., 1.));
}

#[test]
fn planes_act_on_every_particle_in_their_order() {
    let mut body = pair(2., 2., 0.5);
    body.particles[0].position = vec3(0., -1., 0.);
    let floor = Plane::new_raw(vec3(0., 1., 0.), fx(0.));
    let wall = Plane::new_raw(vec3(-1., 0., 0.), fx(1.));
    body.collide_planes(&[floor, wall], fx(0.5));
    assert_eq!(body.particles[0].position, vec3(0., -0.5, 0.));
    assert_eq!(body.particles[1].position, vec3(1.5, 0., 0.));
    assert_eq!(body.particles[0].last, vec3(0., 0., 0.));
}

#[test]
fn a_rod_gives_way_within_its_bounds() {
    assert_eq!(deform_length(fx(1.), fx(0.8), fx(0.9)), fx(0.9));
    assert_eq!(deform_length(fx(1.), fx(0.95), fx(0.9)), fx(0.95));
    assert_eq!(deform_length(fx(1.), fx(1.2), fx(0.9)), fx(1.));
    assert_eq!(deform_length(fx(1.), fx(0.1), fx(1.)), fx(1.));
    assert_eq!(deform_length(fx(1.), fx(0.1), fx(0.)), fx(0.1));
}

#[test]
fn rods_only_ever_shorten_step_after_step() {
    let mut body = pair(0.5, 1., 0.1);
    let mut last = body.rods[0].length;
    let first = last;
    for _ in 0..20 {
        body.step(&[], fx(0.05), fx(0.9), 1);
        let now = body.rods[0].length;
        assert!(now.raw <= last.raw);
        assert!(now.raw >= (last * fx(0.9)).raw);
        last = now;
    }
    assert!(last.raw < first.raw);
}

#[test]
fn undeformable_rods_keep_their_length() {
    let mut body = pair(0.5, 1., 0.1);
    for _ in 0..20 {
        body.step(&[], fx(0.05), fx(1.), 1);
        assert_eq!(body.rods[0].length, fx(1.));
    }
}

#[test]
fn falloffs() {
    let position = vec3(1., 1., 1.);
    let target = vec3(3., 1., -1.);
    assert_eq!(Falloff::Still.apply(position, target), position);
    assert_eq!(Falloff::Snap.apply(position, target), target);
    assert_eq!(Falloff::Linear(fx(0.25)).apply(position, target), vec3(1.5, 1., 0.5));
}

#[test]
fn magnets_move_the_particles_they_serve() {
    let mut body = Instance::new(
        &[vec3(0., 0., 0.), vec3(1., 0., 0.), vec3(2., 0., 0.)],
        &[],
        &[(2, Falloff::Snap), (0, Falloff::Linear(fx(0.5))), (1, Falloff::Still)],
        fx(1.),
        fx(0.5),
        Vec3::zero(),
    );
    body.magnets[0].target = vec3(5., 5., 5.);
    body.magnets[1].target = vec3(0., 4., 0.);
    body.magnets[2].target = vec3(9., 9., 9.);
    body.apply_magnets();
    assert_eq!(body.particles[0].position, vec3(0., 2., 0.));
    assert_eq!(body.particles[1].position, vec3(1., 0., 0.));
    assert_eq!(body.particles[2].position, vec3(5., 5., 5.));
}

#[test]
fn a_new_body_is_at_rest_with_rods_at_their_lengths() {
    let body = Instance::new(
        &[vec3(0., 0., 0.), vec3(3., 4., 0.), vec3(3., 4., 12.)],
        &[(0, 1), (0, 2)],
        &[(1, Falloff::Snap)],
        fx(2.),
        fx(0.25),
        vec3(0., -10., 0.),
    );
    assert_eq!(body.particles.len(), 3);
    assert_eq!(body.particles[2], Particle::new(vec3(3., 4., 12.)));
    assert_eq!(body.model, vec![vec3(0., 0., 0.), vec3(3., 4., 0.), vec3(3., 4., 12.)]);
    assert_eq!(body.rods[0], Rod { left: 0, right: 1, length: fx(5.) });
    assert_eq!(body.rods[1], Rod { left: 0, right: 2, length: fx(13.) });
    assert_eq!(body.magnets, vec![Magnet::new(1, Falloff::Snap)]);
    assert_eq!(body.force, Vec3::zero());
    assert_eq!(body.accel_dt, vec3(0., -0.001, 0.));
    assert_eq!(body.position, Vec3::zero());
    assert_eq!(body.mass, fx(2.));
    assert_eq!(body.rigidity, fx(0.25));
}

#[test]
fn integration_adds_the_cached_term_not_gravity() {
    let mut body = tetrahedron();
    body.accel_dt = vec3(0., -0.5, 0.);
    body.integrate();
    assert_eq!(body.particles[0].position, vec3(0., 0., 0.));
    assert_eq!(body.particles[0].last, vec3(0., 0.5, 0.));
    body.update_cache(vec3(0., 0., 100.));
    assert_eq!(body.accel_dt, vec3(0., 0., 0.01));
}

#[test]
fn the_centre_is_the_mean_and_offsets_are_taken_from_it() {
    let mut body = pair(2., 2., 0.5);
    assert_eq!(body.center(), vec3(1., 0., 0.));
    body.particles[1].position = vec3(4., 2., 0.);
    body.position = body.center();
    assert_eq!(body.position, vec3(2., 1., 0.));
    assert_eq!(body.offset(0), vec3(-2., -1., 0.));
    assert_eq!(body.offset(1), vec3(0., 1., 0.));
    let empty = Instance::new(&[], &[], &[], fx(1.), fx(0.5), Vec3::zero());
    assert_eq!(empty.center(), Vec3::zero());
    assert_eq!(count_as_fixed(3), fx(3.));
}

#[test]
fn a_body_at_rest_stays_exactly_where_it_is() {
    let mut body = tetrahedron();
    let floor = Plane::new_raw(vec3(0., 1., 0.), fx(1.));
    let before: Vec<Particle> = body.particles.clone();
    let rods: Vec<Rod> = body.rods.clone();
    for _ in 0..100 {
        body.step(&[floor], fx(0.05), fx(0.9), 3);
    }
    assert_eq!(body.particles, before);
    assert_eq!(body.rods, rods);
}

#[test]
fn a_rod_keeps_the_midpoint_of_its_ends() {
    let left = vec3(0.1, 0.2, 0.3);
    let right = vec3(1.7, -0.4, 0.9);
    let offset = rod_offset(left, right, fx(1.), fx(0.3));
    assert_eq!((left - offset) + (right + offset), left + right);
}
