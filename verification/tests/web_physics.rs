//! Spring force and physics-step behavior.

use silk_snare::fx::SCALE;
use silk_snare::physics::{advance, step};
use silk_snare::spring::{force_between, Spring};
use silk_snare::vec3::Vec3Fx;
use silk_snare::web::{Particle, Web};

fn v(x: i64, y: i64, z: i64) -> Vec3Fx {
    Vec3Fx { x, y, z }
}

fn particle_at(pos: Vec3Fx, pinned: bool) -> Particle {
    Particle {
        position: pos,
        velocity: v(0, 0, 0),
        force: v(0, 0, 0),
        impulse: v(0, 0, 0),
        impulse_duration: 0,
        mass: 0,
        pinned,
    }
}

fn bare_spring(a: usize, b: usize, stiffness: i64, damping: i64, rest: i64) -> Spring {
    Spring {
        first_index: a,
        second_index: b,
        stiffness,
        damping,
        rest_length: rest,
        ensnared_entities: Vec::new(),
    }
}

#[test]
fn spring_force_stretched_pulls_inward() {
    // Two units apart, one unit of rest: a 20.0-stiffness spring pulls the
    // first endpoint toward the second with force 20.0.
    let f = force_between(v(0, 0, 0), v(2000, 0, 0), v(0, 0, 0), v(0, 0, 0), 20_000, 0, 1000);
    assert_eq!(f, v(20_000, 0, 0));
}

#[test]
fn spring_force_equal_and_opposite() {
    // The force on (p1, p2) and the force on (p2, p1) negate exactly,
    // damping and velocities included.
    let p1 = v(100, 250, -75);
    let p2 = v(1900, -400, 325);
    let v1 = v(35, -20, 5);
    let v2 = v(-15, 60, -45);
    let f12 = force_between(p1, p2, v1, v2, 20_000, 500, 1_500);
    let f21 = force_between(p2, p1, v2, v1, 20_000, 500, 1_500);
    assert_eq!(f12.x, -f21.x);
    assert_eq!(f12.y, -f21.y);
    assert_eq!(f12.z, -f21.z);
}

#[test]
fn spring_force_zero_length_edge_is_zero() {
    let p = v(500, 500, 0);
    let f = force_between(p, p, v(0, 0, 0), v(0, 0, 0), 20_000, 500, 1000);
    assert_eq!(f, v(0, 0, 0));
}

#[test]
fn step_all_pinned_changes_nothing() {
    let mut web = Web::new();
    web.particles.push(particle_at(v(0, 0, 0), true));
    web.particles.push(particle_at(v(2000, 0, 0), true));
    web.springs.push(bare_spring(0, 1, 20_000, 500, 500));
    let before: Vec<Vec3Fx> = web.particles.iter().map(|p| p.position).collect();
    step(&mut web, 500, 16);
    step(&mut web, 500, 2000);
    step(&mut web, 0, 1);
    let after: Vec<Vec3Fx> = web.particles.iter().map(|p| p.position).collect();
    assert_eq!(before, after);
}

#[test]
fn step_derives_mass_from_silk_and_entities() {
    let mut web = Web::new();
    web.mass_per_unit_length = 100;
    web.particles.push(particle_at(v(0, 0, 0), false));
    web.particles.push(particle_at(v(0, 1000, 0), true));
    let mut s = bare_spring(0, 1, 20_000, 0, 1000);
    s.ensnared_entities.push(silk_snare::spring::EnsnaredEntity {
        entity: 9,
        snare_position: 250,
        mass: 40,
        rotation: 0,
        lerp_rotation: 0,
        done_ensnaring: false,
    });
    web.springs.push(s);
    step(&mut web, 0, 1);
    // Half the silk mass: 100 * 1000 / 2000 = 50; plus the entity's share
    // at the first endpoint: 40 * (1000 - 250) / 1000 = 30.
    assert_eq!(web.particles[0].mass, 80);
    // The pinned endpoint is untouched.
    assert_eq!(web.particles[1].mass, 0);
}

#[test]
fn step_zero_mass_particle_skips_integration() {
    let mut web = Web::new();
    web.mass_per_unit_length = 100;
    // An isolated unpinned particle has no adjacent edge, hence zero
    // derived mass: it must stay put instead of dividing by zero.
    web.particles.push(particle_at(v(123, 456, 789), false));
    step(&mut web, 500, 2000);
    assert_eq!(web.particles[0].position, v(123, 456, 789));
    assert_eq!(web.particles[0].velocity, v(0, 0, 0));
}

#[test]
fn step_gravity_pulls_loaded_particle_down() {
    let mut web = Web::new();
    web.mass_per_unit_length = 100;
    web.particles.push(particle_at(v(0, 0, 0), false));
    web.particles.push(particle_at(v(0, 1000, 0), true));
    web.springs.push(bare_spring(0, 1, 20_000, 0, 1000));
    let y0 = web.particles[0].position.y;
    step(&mut web, 0, 100);
    assert!(web.particles[0].velocity.y < 0);
    assert!(web.particles[0].position.y < y0);
}

#[test]
fn advance_splits_into_substeps_and_keeps_pins() {
    let mut web = Web::new();
    web.particles.push(particle_at(v(-2000, 500, 0), true));
    web.particles.push(particle_at(v(-1000, 500, 0), false));
    web.springs.push(bare_spring(0, 1, 20_000, 500, 900));
    advance(&mut web, 500, 16, 1);
    assert_eq!(web.particles[0].position, v(-2000, 500, 0));
    assert_eq!(web.particles.len(), 2);
    assert_eq!(web.springs.len(), 1);
}

#[test]
fn impulse_decays_and_clears() {
    let mut web = Web::new();
    web.mass_per_unit_length = 100;
    web.particles.push(particle_at(v(0, 0, 0), false));
    web.particles.push(particle_at(v(0, 1000, 0), true));
    web.springs.push(bare_spring(0, 1, 20_000, 0, 1000));
    web.particles[0].impulse = v(0, 0, 10_000_000);
    web.particles[0].impulse_duration = 100;
    step(&mut web, 0, 150);
    // The impulse outlived its duration: cleared after contributing once.
    assert_eq!(web.particles[0].impulse, v(0, 0, 0));
    assert_eq!(web.particles[0].impulse_duration, 0);
    assert!(web.particles[0].velocity.z > 0);
}
