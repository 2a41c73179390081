use sph2d::fixed::V2;
use sph2d::params::{
    EPSILON, GRAVITY_ACCEL, H_RADIUS_SQ, JITTER, N_CELLS, WORLD_HEIGHT, WORLD_WIDTH,
};
use sph2d::kernel::{density_kernel, pressure_kernel_gradient};
use sph2d::grid::{calculate_map, cell_index};
use sph2d::density::{apply_rho, calculate_rho};
use sph2d::force::calculate_accel;
use sph2d::integrator::apply_accel;
use sph2d::particle::{ParticleSystem, ParticleValue};
use sph2d::sim::{any_position_saturated, from_particles, new_scratch, seed_grid, tick};

const S: i64 = 4294967296;

fn at_rest(x: i64, y: i64) -> ParticleValue {
    ParticleValue {
        pos: V2 { x, y },
        vel: V2 { x: 0, y: 0 },
        rho: 0,
        press: 0,
    }
}

#[test]
fn density_kernel_exact_values() {
    assert_eq!(density_kernel(0), 6728845);
    assert_eq!(density_kernel(64 * S), 313941);
    assert_eq!(density_kernel(H_RADIUS_SQ), 0);
    assert_eq!(density_kernel(H_RADIUS_SQ + 1), 0);
}

#[test]
fn gradient_kernel_exact_values() {
    assert_eq!(pressure_kernel_gradient(25 * S), 227098);
    assert_eq!(pressure_kernel_gradient(99 * S), 40);
    assert_eq!(pressure_kernel_gradient(H_RADIUS_SQ), 0);
}

#[test]
fn cell_index_clamps_out_of_domain_positions() {
    // in-domain position: column 30, row 20
    assert_eq!(cell_index(V2 { x: 300 * S, y: 200 * S }), 20 * 60 + 30);
    // positions past the edges land in the nearest edge cell
    assert_eq!(cell_index(V2 { x: -5 * S, y: -5 * S }), 0);
    assert_eq!(cell_index(V2 { x: 650 * S, y: 450 * S }), 39 * 60 + 59);
    assert_eq!(cell_index(V2 { x: 0, y: 0 }), 0);
}

#[test]
fn grid_rebuild_is_idempotent() {
    let particles = vec![
        at_rest(100 * S, 100 * S),
        at_rest(106 * S, 100 * S),
        at_rest(300 * S, 200 * S),
        at_rest(-5 * S, 450 * S),
    ];
    let mut ps = from_particles(particles);
    let mut idxs = new_scratch(4);
    calculate_map(&mut ps, &mut idxs);
    let first: Vec<Vec<usize>> = ps.particle_map.clone();
    calculate_map(&mut ps, &mut idxs);
    assert_eq!(ps.particle_map, first);
    assert_eq!(ps.particle_map.len(), N_CELLS);
}

#[test]
fn isolated_particle_feels_pure_gravity() {
    let mut ps = from_particles(vec![at_rest(300 * S, 200 * S)]);
    let mut idxs = new_scratch(1);
    calculate_map(&mut ps, &mut idxs);
    calculate_rho(&ps, &mut idxs);
    // the only neighbor is the particle itself, at distance zero
    assert_eq!(idxs[0].near_particles, vec![0]);
    assert_eq!(idxs[0].near_dist, vec![0]);
    // density is the floor plus the particle's own kernel contribution
    assert_eq!(idxs[0].rho, 201264047);
    assert!(idxs[0].rho >= EPSILON);
    assert_eq!(idxs[0].press, 271835111700000);
    apply_rho(&mut ps, &idxs);
    calculate_accel(&ps, &mut idxs);
    assert_eq!(idxs[0].accel, V2 { x: 0, y: -GRAVITY_ACCEL });
    assert_eq!(idxs[0].accel, V2 { x: 0, y: -4209067950080 });
}

#[test]
fn neighbor_lists_are_symmetric_and_density_positive() {
    // a 3x3 cluster at 6 px spacing: rows and diagonals interact, and the
    // cluster spans two grid cells in each axis
    let mut particles = Vec::new();
    for i in 0..3i64 {
        for j in 0..3i64 {
            particles.push(at_rest((96 + 6 * i) * S, (96 + 6 * j) * S));
        }
    }
    let n = particles.len();
    let mut ps = from_particles(particles);
    let mut idxs = new_scratch(n);
    calculate_map(&mut ps, &mut idxs);
    calculate_rho(&ps, &mut idxs);
    for i in 0..n {
        assert!(idxs[i].rho >= EPSILON);
        for j in 0..n {
            if i == j {
                continue;
            }
            let dx = ps.particles[i].pos.x - ps.particles[j].pos.x;
            let dy = ps.particles[i].pos.y - ps.particles[j].pos.y;
            let d2 = (dx / S) * (dx / S) + (dy / S) * (dy / S);
            if d2 * S < H_RADIUS_SQ {
                assert!(idxs[i].near_particles.contains(&j));
                assert!(idxs[j].near_particles.contains(&i));
            }
        }
    }
}

#[test]
fn lower_wall_reflection_damps_and_flips_velocity() {
    // standing exactly on the lower-x boundary, moving toward the wall
    let mut ps = from_particles(vec![ParticleValue {
        pos: V2 { x: 0, y: 200 * S },
        vel: V2 { x: -50 * S, y: 0 },
        rho: 0,
        press: 0,
    }]);
    let idxs = new_scratch(1);
    apply_accel(&mut ps, &idxs);
    let p = &ps.particles[0];
    assert!(p.pos.x > 0);
    assert_eq!(p.pos.x, 322122514);
    assert!(p.vel.x > 0);
    assert!(p.vel.x < 50 * S);
    assert_eq!(p.vel.x, 25 * S);
    // the y axis is untouched
    assert_eq!(p.pos.y, 200 * S);
    assert_eq!(p.vel.y, 0);
}

#[test]
fn upper_wall_reflection_mirrors_the_lower_one() {
    // standing on the upper-x boundary, moving outward at 40 px/s
    let mut ps = from_particles(vec![ParticleValue {
        pos: V2 { x: WORLD_WIDTH, y: 200 * S },
        vel: V2 { x: 40 * S, y: 0 },
        rho: 0,
        press: 0,
    }]);
    let idxs = new_scratch(1);
    apply_accel(&mut ps, &idxs);
    let p = &ps.particles[0];
    assert!(p.pos.x < WORLD_WIDTH);
    assert_eq!(p.pos.x, 2576679729916);
    assert!(p.vel.x < 0);
    assert_eq!(p.vel.x, -20 * S);
}

#[test]
fn symmetric_pair_gets_opposite_pressure_forces() {
    // two particles exactly h/2 = 5 px apart, at rest
    let mut ps = from_particles(vec![
        at_rest(300 * S - 5 * S / 2, 200 * S),
        at_rest(300 * S + 5 * S / 2, 200 * S),
    ]);
    let mut idxs = new_scratch(2);
    tick(&mut ps, &mut idxs);
    // equal densities, and pressure forces equal in magnitude and opposite
    assert_eq!(idxs[0].rho, idxs[1].rho);
    assert_eq!(idxs[0].rho, 286170491);
    assert_eq!(idxs[0].accel.x, -idxs[1].accel.x);
    assert_eq!(idxs[0].accel.x, -692893034755086);
    assert_eq!(idxs[0].accel.y, idxs[1].accel.y);
    assert_eq!(idxs[0].accel.y, -GRAVITY_ACCEL);
    // the pair moves apart symmetrically around its center
    assert_eq!(ps.particles[0].vel.x, -ps.particles[1].vel.x);
    assert!(ps.particles[0].vel.x < 0);
    assert_eq!(ps.particles[0].pos.x, 1277579547406);
    assert_eq!(ps.particles[1].pos.x, 1299400830194);
}

#[test]
fn particle_count_is_conserved_and_jitter_bounded() {
    let mut ps = ParticleSystem::new();
    assert_eq!(ps.particles.len(), 300);
    // seeding puts every particle within the jitter bound of its lattice slot
    for (k, p) in ps.particles.iter().enumerate() {
        let col = (k % 10) as i64;
        let row = (k / 10) as i64;
        let lx = (col + 1) * 10 * S - 5 * S / 2;
        let ly = (row + 1) * 10 * S - 5 * S / 2;
        assert!(lx - JITTER <= p.pos.x && p.pos.x <= lx + JITTER);
        assert!(ly - JITTER <= p.pos.y && p.pos.y <= ly + JITTER);
        assert_eq!(p.vel, V2 { x: 0, y: 0 });
    }
    let mut idxs = new_scratch(300);
    for _ in 0..10 {
        tick(&mut ps, &mut idxs);
        assert_eq!(ps.particles.len(), 300);
        assert_eq!(idxs.len(), 300);
    }
}

#[test]
fn saturated_positions_are_detected() {
    let healthy = from_particles(vec![at_rest(300 * S, 200 * S)]);
    assert!(!any_position_saturated(&healthy));
    let blown = from_particles(vec![
        at_rest(300 * S, 200 * S),
        at_rest(i64::MAX, 200 * S),
    ]);
    assert!(any_position_saturated(&blown));
}

#[test]
fn hundred_ticks_stay_in_domain_with_energy_trending_down() {
    // a 10x10 grid of particles at rest, one smoothing radius apart, in the
    // 600 x 400 domain
    let zeros = vec![0i64; 100];
    let mut ps = seed_grid(10, 10, 10 * S, 10 * S, &zeros, &zeros);
    let mut idxs = new_scratch(100);
    assert_eq!(ps.particles.len(), 100);

    let energy = |ps: &ParticleSystem| -> f64 {
        let mass = 128462471823f64 / S as f64;
        let g = GRAVITY_ACCEL as f64 / S as f64;
        let mut e = 0.0;
        for p in &ps.particles {
            let vx = p.vel.x as f64 / S as f64;
            let vy = p.vel.y as f64 / S as f64;
            let y = p.pos.y as f64 / S as f64;
            e += 0.5 * mass * (vx * vx + vy * vy) + mass * g * y;
        }
        e
    };
    let e0 = energy(&ps);

    for _ in 0..100 {
        tick(&mut ps, &mut idxs);
    }

    assert_eq!(ps.particles.len(), 100);
    for p in &ps.particles {
        assert!(0 <= p.pos.x && p.pos.x <= WORLD_WIDTH);
        assert!(0 <= p.pos.y && p.pos.y <= WORLD_HEIGHT);
    }
    // with the lossy walls and no pair inside the radius, the total
    // kinetic-plus-potential energy cannot grow
    let e1 = energy(&ps);
    assert!(e1 <= e0);

    // the leftmost column never moves sideways; everything falls freely
    assert_eq!(ps.particles[0].pos.x, 32212254720);
    assert_eq!(ps.particles[0].pos.y, 26898309690);
    assert_eq!(ps.particles[0].vel.x, 0);
    assert_eq!(ps.particles[0].vel.y, -210453334000);
}
