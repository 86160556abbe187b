//! The smaller models: region, curves, obstacles, generators, lookups.

use silk_snare::gen::{generate_2_particle_example, generate_web};
use silk_snare::insect::BezierCurve;
use silk_snare::obstacle::{obstacle_position, rock_timer_value, FlyingObstacle};
use silk_snare::progress::{update_cooking_insect, CookingInsect};
use silk_snare::region::{in_camera_bounds, Aabb, AnchorRegion};
use silk_snare::spring::Spring;
use silk_snare::vec3::Vec3Fx;
use silk_snare::web::{Particle, Web};

fn v(x: i64, y: i64, z: i64) -> Vec3Fx {
    Vec3Fx { x, y, z }
}

#[test]
fn camera_bounds_follow_the_arena_box() {
    assert!(in_camera_bounds(v(-2000, 500, 0)));
    assert!(in_camera_bounds(v(-3800, 1500, 999)));
    assert!(!in_camera_bounds(v(-3801, 500, 0)));
    assert!(!in_camera_bounds(v(-2000, 1501, 0)));
}

#[test]
fn region_requires_terrain_and_bounds() {
    let mut region = AnchorRegion::new();
    assert!(!region.contains(v(-2000, 500, 0)));
    region.push_box(Aabb { min: v(-2100, 400, -100), max: v(-1900, 600, 100) });
    assert!(region.contains(v(-2000, 500, 0)));
    // Inside a box but outside the playfield still does not count.
    region.push_box(Aabb { min: v(0, 0, 0), max: v(900_000, 900_000, 0) });
    assert!(!region.contains(v(500_000, 500_000, 0)));
}

#[test]
fn region_path_needs_every_sample_inside() {
    let mut region = AnchorRegion::new();
    region.push_box(Aabb { min: v(-2100, -400, -100), max: v(-1900, 600, 100) });
    assert!(region.has_path(v(-2000, -300, 0), v(-2000, 500, 0)));
    // Endpoints covered by two disjoint spots, gap in between: no path.
    let mut spots = AnchorRegion::new();
    spots.push_box(Aabb { min: v(-2050, -350, -50), max: v(-1950, -250, 50) });
    spots.push_box(Aabb { min: v(-2050, 450, -50), max: v(-1950, 550, 50) });
    assert!(!spots.has_path(v(-2000, -300, 0), v(-2000, 500, 0)));
}

#[test]
fn bezier_hits_its_endpoints_exactly() {
    let b = BezierCurve::new(v(0, 0, 0), v(100, 200, 0), v(200, 200, 0), v(300, 0, 0));
    assert_eq!(b.at(0), v(0, 0, 0));
    assert_eq!(b.at(1000), v(300, 0, 0));
    // The curve bends toward the handles mid-flight.
    let mid = b.at(500);
    assert!(mid.y > 0);
    assert_eq!(mid.x, 149);
}

#[test]
fn bezier_tangent_matches_the_handles_at_the_ends() {
    let b = BezierCurve::new(v(0, 0, 0), v(100, 200, 0), v(200, 200, 0), v(300, 0, 0));
    // At the start the tangent is three times the first handle offset.
    assert_eq!(b.tangent_at(0), v(300, 600, 0));
    // At the end, three times the last handle offset.
    assert_eq!(b.tangent_at(1000), v(300, -600, 0));
}

#[test]
fn obstacle_flies_a_parabola() {
    let mut rock = FlyingObstacle::new(
        v(-3000, 1000, -2000),
        v(0, 2000, 4000),
        v(0, -9810, 0),
        v(0, 5000, 5000),
        20_000,
    );
    let (p0, gone0) = rock.tick(0);
    assert_eq!(p0, v(-3000, 1000, -2000));
    assert!(!gone0);
    // Three seconds of game time tick a third of that onto the clock.
    let (p1, _) = rock.tick(1500);
    assert_eq!(rock.motion.time, 499);
    // x holds, z advances linearly, y bends down by g t^2 / 2.
    assert_eq!(p1.x, -3000);
    assert_eq!(p1.z, -2000 + 4000 * 499 / 1000);
    let vy = 2000 * 499 / 1000;
    let gy = ((-9810 * 499) / 1000) * 499 / 2000;
    assert_eq!(p1.y, 1000 + vy + gy);
}

#[test]
fn rock_cadence_tightens_over_time() {
    assert_eq!(rock_timer_value(0), 1000);
    assert_eq!(rock_timer_value(20_000), 500);
    assert!(rock_timer_value(1_000_000) < rock_timer_value(0));
}

#[test]
fn cooking_bar_mirrors_the_creature() {
    let path = BezierCurve::new(v(0, 0, 0), v(0, 0, 0), v(0, 0, 0), v(0, 0, 0));
    let mut fly = silk_snare::insect::FlyingInsect::new(100, 10, path, 0);
    fly.cooking_progress = 640;
    let mut bar = CookingInsect { progress: 0 };
    update_cooking_insect(&mut bar, &fly);
    assert_eq!(bar.value(), 640);
}

#[test]
fn two_particle_example_shape() {
    let w = generate_2_particle_example();
    assert_eq!(w.particles.len(), 2);
    assert_eq!(w.springs.len(), 1);
    assert!(!w.particles[0].pinned);
    assert!(w.particles[1].pinned);
    assert_eq!(w.springs[0].rest_length, 1000);
}

#[test]
fn radial_web_pins_the_outer_ring() {
    let dirs = vec![v(1000, 0, 0), v(0, 1000, 0), v(-1000, 0, 0), v(0, -1000, 0)];
    let w = generate_web(2, 4, 400_000, 100, 30_000, 500, v(-2000, 500, 0), &dirs);
    assert_eq!(w.particles.len(), 9);
    assert!(w.springs.len() >= 8);
    assert!(!w.particles[0].pinned);
    for p in 1..5 {
        assert!(!w.particles[p].pinned);
    }
    for p in 5..9 {
        assert!(w.particles[p].pinned);
    }
    // Ring radii: half of the outer radius, then the outer radius.
    assert_eq!(w.particles[1].position, v(-2000 + 200_000, 500, 0));
    assert_eq!(w.particles[5].position, v(-2000 + 400_000, 500, 0));
}

#[test]
fn single_column_web_is_a_straight_strand() {
    // One particle per ring: a radial web degenerates to a chain from
    // the hub outward, outer end pinned.
    let dirs = vec![v(0, 1000, 0)];
    let w = generate_web(3, 1, 300_000, 100, 30_000, 500, v(-2000, 500, 0), &dirs);
    assert_eq!(w.particles.len(), 4);
    assert_eq!(w.springs.len(), 3);
    assert!(!w.particles[0].pinned);
    assert!(!w.particles[1].pinned);
    assert!(!w.particles[2].pinned);
    assert!(w.particles[3].pinned);
    assert_eq!(w.particles[1].position, v(-2000, 500 + 100_000, 0));
    assert_eq!(w.particles[3].position, v(-2000, 500 + 300_000, 0));
}

#[test]
fn particle_and_spring_lookups_find_first_match() {
    let mut web = Web::new();
    web.particles.push(Particle {
        position: v(0, 0, 0),
        velocity: v(0, 0, 0),
        force: v(0, 0, 0),
        impulse: v(0, 0, 0),
        impulse_duration: 0,
        mass: 0,
        pinned: false,
    });
    web.particles.push(Particle {
        position: v(2000, 0, 0),
        velocity: v(0, 0, 0),
        force: v(0, 0, 0),
        impulse: v(0, 0, 0),
        impulse_duration: 0,
        mass: 0,
        pinned: false,
    });
    web.springs.push(Spring {
        first_index: 0,
        second_index: 1,
        stiffness: 20_000,
        damping: 500,
        rest_length: 2000,
        ensnared_entities: Vec::new(),
    });
    assert_eq!(web.get_particle_index(v(5, 5, 0), 30), Some(0));
    assert_eq!(web.get_particle_index(v(2010, 0, 0), 30), Some(1));
    assert_eq!(web.get_particle_index(v(1000, 0, 0), 30), None);
    assert_eq!(web.get_spring(0, 1), Some(0));
    assert_eq!(web.get_spring(1, 0), Some(0));
    assert_eq!(web.get_spring(0, 0), None);
}

#[test]
fn intersects_finds_a_crossing_edge() {
    let mut web = Web::new();
    web.particles.push(Particle {
        position: v(500, -500, 0),
        velocity: v(0, 0, 0),
        force: v(0, 0, 0),
        impulse: v(0, 0, 0),
        impulse_duration: 0,
        mass: 0,
        pinned: false,
    });
    web.particles.push(Particle {
        position: v(500, 500, 0),
        velocity: v(0, 0, 0),
        force: v(0, 0, 0),
        impulse: v(0, 0, 0),
        impulse_duration: 0,
        mass: 0,
        pinned: false,
    });
    web.springs.push(Spring {
        first_index: 0,
        second_index: 1,
        stiffness: 20_000,
        damping: 500,
        rest_length: 1000,
        ensnared_entities: Vec::new(),
    });
    // A probe along +x at height 0 crosses the vertical edge at x = 500.
    let hit = web.springs[0].intersects(&web, v(0, 0, -1000), v(0, 0, 0), v(1000, 0, 0));
    assert!(hit.is_some());
    let p = hit.unwrap();
    assert_eq!(p.x, 500);
    assert_eq!(p.y, 0);
    // A probe pointing away misses.
    let miss = web.springs[0].intersects(&web, v(0, 0, -1000), v(0, 100, 0), v(400, 100, 0));
    assert!(miss.is_none());
}
