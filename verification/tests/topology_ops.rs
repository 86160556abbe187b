//! Splitting and destroying edges.

use silk_snare::spring::{EnsnaredEntity, Spring};
use silk_snare::vec3::Vec3Fx;
use silk_snare::web::{Particle, Web};

fn v(x: i64, y: i64, z: i64) -> Vec3Fx {
    Vec3Fx { x, y, z }
}

fn particle_at(pos: Vec3Fx, pinned: bool) -> Particle {
    Particle {
        position: pos,
        velocity: v(0, 0, 0),
        force: v(0, 0, 0),
        impulse: v(0, 0, 0),
        impulse_duration: 0,
        mass: 0,
        pinned,
    }
}

fn record(entity: u64, snare: i64, mass: i64) -> EnsnaredEntity {
    EnsnaredEntity {
        entity,
        snare_position: snare,
        mass,
        rotation: 0,
        lerp_rotation: 0,
        done_ensnaring: false,
    }
}

fn two_particle_web(a: Vec3Fx, b: Vec3Fx, rest: i64) -> Web {
    let mut web = Web::new();
    web.particles.push(particle_at(a, false));
    web.particles.push(particle_at(b, false));
    web.springs.push(Spring {
        first_index: 0,
        second_index: 1,
        stiffness: 20_000,
        damping: 500,
        rest_length: rest,
        ensnared_entities: Vec::new(),
    });
    web
}

#[test]
fn split_at_midpoint_rest_lengths_sum_back() {
    let mut web = two_particle_web(v(0, 0, 0), v(2000, 0, 0), 2000);
    web.split_spring(0, v(1000, 0, 0));
    assert_eq!(web.particles.len(), 3);
    assert_eq!(web.springs.len(), 2);
    let r1 = web.springs[0].rest_length;
    let r2 = web.springs[1].rest_length;
    assert_eq!(r1, 1000);
    assert_eq!(r2, 1000);
    // Re-merging (summing the two rest lengths) reproduces the original.
    assert_eq!(r1 + r2, 2000);
}

#[test]
fn split_off_center_rest_lengths_still_sum_back() {
    let mut web = two_particle_web(v(0, 0, 0), v(3000, 0, 0), 2777);
    web.split_spring(0, v(900, 0, 0));
    // t = 900/3000 = 0.3; the second half takes the exact remainder, so
    // the sum is exact whatever the rounding.
    assert_eq!(web.springs[0].rest_length + web.springs[1].rest_length, 2777);
}

#[test]
fn split_keeps_stiffness_and_damping() {
    let mut web = two_particle_web(v(0, 0, 0), v(2000, 0, 0), 2000);
    web.split_spring(0, v(500, 0, 0));
    for s in &web.springs {
        assert_eq!(s.stiffness, 20_000);
        assert_eq!(s.damping, 500);
    }
}

#[test]
fn split_partitions_attached_entities() {
    let mut web = two_particle_web(v(0, 0, 0), v(2000, 0, 0), 2000);
    web.springs[0].ensnared_entities.push(record(1, 250, 10));
    web.springs[0].ensnared_entities.push(record(2, 700, 20));
    web.springs[0].ensnared_entities.push(record(3, 500, 5));
    web.split_spring(0, v(1000, 0, 0));
    let n1 = web.springs[0].ensnared_entities.len();
    let n2 = web.springs[1].ensnared_entities.len();
    // Count is preserved: the partition is a disjoint cover.
    assert_eq!(n1 + n2, 3);
    // Records at or before the split parameter (t = 0.5) go first.
    assert_eq!(n1, 2);
    let m1: i64 = web.springs[0].ensnared_entities.iter().map(|e| e.mass).sum();
    let m2: i64 = web.springs[1].ensnared_entities.iter().map(|e| e.mass).sum();
    // Total attached mass is preserved.
    assert_eq!(m1 + m2, 35);
}

#[test]
fn split_reparametrizes_record_onto_half() {
    let mut web = two_particle_web(v(0, 0, 0), v(2000, 0, 0), 2000);
    web.springs[0].ensnared_entities.push(record(1, 250, 10));
    web.split_spring(0, v(1000, 0, 0));
    // World position 0.25 * 2 units = 500; the first half spans 0..1000,
    // so the new parameter doubles to 0.5.
    assert_eq!(web.springs[0].ensnared_entities[0].snare_position, 500);
}

#[test]
fn destroy_at_midpoint_releases_attached_entities() {
    // An edge through the playfield with an entity at snare 0.3.
    let mut web = two_particle_web(v(-2500, 500, 0), v(-1500, 500, 0), 1000);
    web.springs[0].ensnared_entities.push(record(42, 300, 10));
    let released = web.destroy(v(-2000, 500, 0));
    assert_eq!(released, vec![42]);
    // Zero attached entities remain referencing the destroyed edge (or
    // any other edge).
    for s in &web.springs {
        for e in &s.ensnared_entities {
            assert!(e.entity != 42);
        }
        assert_eq!(s.ensnared_entities.len(), 0);
    }
    // The hit edge became two fragments tied to two burst particles.
    assert_eq!(web.springs.len(), 2);
    assert_eq!(web.particles.len(), 4);
    assert_eq!(web.springs[0].rest_length + web.springs[1].rest_length, 1000);
}

#[test]
fn destroy_misses_perpendicular_edges() {
    let mut web = two_particle_web(v(-2500, 500, 0), v(-1500, 500, 0), 1000);
    // A point well off the line between the endpoints: directions to the
    // two endpoints are far from opposite.
    let released = web.destroy(v(-2000, 900, 0));
    assert_eq!(released.len(), 0);
    assert_eq!(web.springs.len(), 1);
    assert_eq!(web.particles.len(), 2);
}

#[test]
fn destroy_outside_playfield_is_a_no_op() {
    let mut web = two_particle_web(v(-2500, 500, 0), v(-1500, 500, 0), 1000);
    web.springs[0].ensnared_entities.push(record(7, 500, 10));
    let released = web.destroy(v(500_000, 500_000, 0));
    assert_eq!(released.len(), 0);
    assert_eq!(web.springs[0].ensnared_entities.len(), 1);
}

#[test]
fn destroy_through_junction_severs_both_edges() {
    let mut web = Web::new();
    web.particles.push(particle_at(v(-2500, 500, 0), false));
    web.particles.push(particle_at(v(-1500, 500, 0), false));
    web.particles.push(particle_at(v(-2000, 0, 0), false));
    web.particles.push(particle_at(v(-2000, 1000, 0), false));
    web.springs.push(Spring {
        first_index: 0,
        second_index: 1,
        stiffness: 20_000,
        damping: 500,
        rest_length: 1000,
        ensnared_entities: Vec::new(),
    });
    web.springs.push(Spring {
        first_index: 2,
        second_index: 3,
        stiffness: 20_000,
        damping: 500,
        rest_length: 1000,
        ensnared_entities: Vec::new(),
    });
    let released = web.destroy(v(-2000, 500, 0));
    assert_eq!(released.len(), 0);
    // Both edges pass through the point: both sever in one call.
    assert_eq!(web.springs.len(), 4);
    assert_eq!(web.particles.len(), 8);
}

#[test]
fn break_at_obstacle_projects_onto_edge() {
    let mut web = two_particle_web(v(-2500, 500, 0), v(-1500, 500, 0), 1000);
    web.springs[0].ensnared_entities.push(record(11, 300, 10));
    // The obstacle sits slightly off the edge; its projection lands at
    // the midpoint and tears the edge there.
    let released = web.break_at_obstacle(0, v(-2000, 520, 0));
    assert_eq!(released, vec![11]);
    assert_eq!(web.springs.len(), 2);
}

#[test]
fn free_enemy_removes_one_record_per_spring() {
    let mut web = two_particle_web(v(0, 0, 0), v(2000, 0, 0), 2000);
    web.springs[0].ensnared_entities.push(record(5, 100, 10));
    web.springs[0].ensnared_entities.push(record(6, 900, 10));
    silk_snare::ensnare::free_enemy_from_web(&mut web, 5);
    assert_eq!(web.springs[0].ensnared_entities.len(), 1);
    assert_eq!(web.springs[0].ensnared_entities[0].entity, 6);
}
