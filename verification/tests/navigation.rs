//! Movement requests: no-ops, sliding along edges, and spinning silk.

use silk_snare::agent::{insect_near, move_spider, reset_if_out_of_bounds, rotate_spider,
    update_spider_roll, Spider, SpiderPosition};
use silk_snare::nav::{set_new_target, NavOutcome};
use silk_snare::region::{Aabb, AnchorRegion};
use silk_snare::spring::Spring;
use silk_snare::vec3::Vec3Fx;
use silk_snare::web::{Particle, Web};

fn v(x: i64, y: i64, z: i64) -> Vec3Fx {
    Vec3Fx { x, y, z }
}

fn particle_at(pos: Vec3Fx, pinned: bool) -> Particle {
    Particle {
        position: pos,
        velocity: v(0, 0, 0),
        force: v(0, 0, 0),
        impulse: v(0, 0, 0),
        impulse_duration: 0,
        mass: 0,
        pinned,
    }
}

fn edge_web(a: Vec3Fx, b: Vec3Fx, rest: i64) -> Web {
    let mut web = Web::new();
    web.particles.push(particle_at(a, true));
    web.particles.push(particle_at(b, true));
    web.springs.push(Spring {
        first_index: 0,
        second_index: 1,
        stiffness: 20_000,
        damping: 500,
        rest_length: rest,
        ensnared_entities: Vec::new(),
    });
    web
}

fn box_around(p: Vec3Fx, r: i64) -> Aabb {
    Aabb { min: v(p.x - r, p.y - r, p.z - r), max: v(p.x + r, p.y + r, p.z + r) }
}

#[test]
fn zero_delta_never_mutates_agent_position() {
    let mut web = edge_web(v(-2000, 0, 0), v(-1600, 0, 0), 400);
    let mut spider = Spider::new(10_000, v(-2000, 0, 0));
    spider.current_position = SpiderPosition::WEB(0, 300);
    spider.target_position = SpiderPosition::WEB(0, 300);
    let region = AnchorRegion::new();
    let outcome = set_new_target(&mut spider, &mut web, v(0, 0, 0), &region);
    assert_eq!(outcome, NavOutcome::ZeroDelta);
    assert!(matches!(spider.current_position, SpiderPosition::WEB(0, 300)));
    assert!(matches!(spider.target_position, SpiderPosition::WEB(0, 300)));
    assert_eq!(web.springs.len(), 1);
    assert_eq!(web.particles.len(), 2);

    // A tiny but nonzero request is below the threshold too.
    let outcome = set_new_target(&mut spider, &mut web, v(50, 0, 0), &region);
    assert_eq!(outcome, NavOutcome::ZeroDelta);
    assert!(matches!(spider.current_position, SpiderPosition::WEB(0, 300)));
}

#[test]
fn along_edge_from_endpoint_advances_by_rest_ratio() {
    // Anchored at t = 0 and asked to move exactly along the edge: the
    // target parameter is the requested length over the rest length,
    // clamped into the edge, and the edge index never changes.
    let mut web = edge_web(v(-2000, 0, 0), v(-1600, 0, 0), 400);
    let mut spider = Spider::new(10_000, v(-2000, 0, 0));
    spider.current_position = SpiderPosition::WEB(0, 0);
    spider.target_position = SpiderPosition::WEB(0, 0);
    let region = AnchorRegion::new();
    let outcome = set_new_target(&mut spider, &mut web, v(200, 0, 0), &region);
    assert_eq!(outcome, NavOutcome::AlongIncident);
    assert!(matches!(spider.current_position, SpiderPosition::WEB(0, 0)));
    // clamp(200 / 400) of the edge = 0.5.
    assert!(matches!(spider.target_position, SpiderPosition::WEB(0, 500)));

    // A request longer than the edge clamps to the far end.
    let outcome = set_new_target(&mut spider, &mut web, v(900, 0, 0), &region);
    assert_eq!(outcome, NavOutcome::AlongIncident);
    assert!(matches!(spider.target_position, SpiderPosition::WEB(0, 1000)));
}

#[test]
fn along_edge_mid_edge_slides_without_changing_edge() {
    let mut web = edge_web(v(-2000, 0, 0), v(-1600, 0, 0), 400);
    let mut spider = Spider::new(10_000, v(-2000, 0, 0));
    spider.current_position = SpiderPosition::WEB(0, 300);
    spider.target_position = SpiderPosition::WEB(0, 300);
    let region = AnchorRegion::new();
    let outcome = set_new_target(&mut spider, &mut web, v(100, 0, 0), &region);
    assert_eq!(outcome, NavOutcome::AlongCurrent);
    assert!(matches!(spider.current_position, SpiderPosition::WEB(0, 300)));
    // 300 + 100/400 of the edge = 550.
    assert!(matches!(spider.target_position, SpiderPosition::WEB(0, 550)));

    // Anti-parallel: retreat instead.
    let mut spider2 = Spider::new(10_000, v(-2000, 0, 0));
    spider2.current_position = SpiderPosition::WEB(0, 300);
    spider2.target_position = SpiderPosition::WEB(0, 300);
    let outcome = set_new_target(&mut spider2, &mut web, v(-100, 0, 0), &region);
    assert_eq!(outcome, NavOutcome::AlongCurrent);
    assert!(matches!(spider2.target_position, SpiderPosition::WEB(0, 50)));
}

#[test]
fn three_anchor_moves_spin_one_edge_each_and_share_particles() {
    // A single pinned anchor particle, no edges, and three terrain spots.
    let start = v(-2000, -300, 0);
    let t1 = v(-2000, 200, 0);
    let t2 = v(-1500, -300, 0);
    let t3 = v(-2500, -300, 0);
    let mut web = Web::new();
    web.particles.push(particle_at(start, true));
    let mut spider = Spider::new(10_000, start);
    let mut region = AnchorRegion::new();
    region.push_box(box_around(t1, 50));
    region.push_box(box_around(t2, 50));
    region.push_box(box_around(t3, 50));

    let outcome = set_new_target(&mut spider, &mut web, v(0, 500, 0), &region);
    assert_eq!(outcome, NavOutcome::NewEdge);
    assert_eq!(web.springs.len(), 1);
    // The start reused the anchor particle: only the far end is new.
    assert_eq!(web.particles.len(), 2);
    assert!(matches!(spider.current_position, SpiderPosition::WEB(0, 0)));
    assert!(matches!(spider.target_position, SpiderPosition::WEB(0, 1000)));

    let outcome = set_new_target(&mut spider, &mut web, v(500, 0, 0), &region);
    assert_eq!(outcome, NavOutcome::NewEdge);
    assert_eq!(web.springs.len(), 2);
    assert_eq!(web.particles.len(), 3);

    let outcome = set_new_target(&mut spider, &mut web, v(-500, 0, 0), &region);
    assert_eq!(outcome, NavOutcome::NewEdge);
    assert_eq!(web.springs.len(), 3);
    assert_eq!(web.particles.len(), 4);

    // Fresh silk carries a quarter of slack: rest is 3/4 of the span.
    let last = &web.springs[2];
    assert_eq!(last.rest_length, 375);
    assert_eq!(last.stiffness, 20_000);
    assert_eq!(last.damping, 500);
}

#[test]
fn crossing_an_existing_edge_makes_a_junction() {
    // A vertical strand hangs in the playfield; the agent, free-roaming
    // to its left, shoots silk through it: the strand splits at the
    // crossing and one new edge reaches the junction.
    let mut web = Web::new();
    web.particles.push(particle_at(v(-1800, -400, 0), true));
    web.particles.push(particle_at(v(-1800, -200, 0), true));
    web.springs.push(Spring {
        first_index: 0,
        second_index: 1,
        stiffness: 20_000,
        damping: 500,
        rest_length: 200,
        ensnared_entities: Vec::new(),
    });
    let mut spider = Spider::new(10_000, v(-2000, -300, 0));
    let region = AnchorRegion::new();
    let outcome = set_new_target(&mut spider, &mut web, v(500, 0, 0), &region);
    assert_eq!(outcome, NavOutcome::NewEdge);
    // The old strand became two halves plus the new silk.
    assert_eq!(web.springs.len(), 3);
    // One particle for the agent's end, one at the junction.
    assert_eq!(web.particles.len(), 4);
    assert!(matches!(spider.current_position, SpiderPosition::WEB(2, 0)));
    assert!(matches!(spider.target_position, SpiderPosition::WEB(2, 1000)));
    // The junction splits the strand's rest length exactly.
    assert_eq!(web.springs[0].rest_length + web.springs[1].rest_length, 200);
}

#[test]
fn destination_split_survives_the_first_splits_swap_remove() {
    // The agent stands mid-edge and shoots silk upward through a second
    // strand whose index is the last one. Spinning the silk first splits
    // the agent's own edge, and that swap-remove relocates the crossed
    // strand's index; the destination split must still land on the
    // crossed strand, putting the junction particle on it.
    let mut web = Web::new();
    web.particles.push(particle_at(v(-2200, -300, 0), true));
    web.particles.push(particle_at(v(-1800, -300, 0), true));
    web.particles.push(particle_at(v(-2200, -100, 0), true));
    web.particles.push(particle_at(v(-1800, -100, 0), true));
    web.springs.push(Spring {
        first_index: 0,
        second_index: 1,
        stiffness: 20_000,
        damping: 500,
        rest_length: 400,
        ensnared_entities: Vec::new(),
    });
    web.springs.push(Spring {
        first_index: 2,
        second_index: 3,
        stiffness: 20_000,
        damping: 500,
        rest_length: 400,
        ensnared_entities: Vec::new(),
    });
    let mut spider = Spider::new(10_000, v(-2000, -300, 0));
    spider.current_position = SpiderPosition::WEB(0, 500);
    spider.target_position = SpiderPosition::WEB(0, 500);
    let region = AnchorRegion::new();
    let outcome = set_new_target(&mut spider, &mut web, v(0, 300, 0), &region);
    assert_eq!(outcome, NavOutcome::NewEdge);
    // Both edges split (two halves each) plus the fresh silk.
    assert_eq!(web.springs.len(), 5);
    assert_eq!(web.particles.len(), 6);
    // The junction particle sits on the crossed strand, not on some
    // stale slot: on the line y = -0.1, straight above the agent.
    let junction = web.particles[5].position;
    assert!(junction.y >= -102 && junction.y <= -98);
    assert!(junction.x >= -2010 && junction.x <= -1990);
    // The crossed strand's halves share its rest length exactly.
    assert_eq!(web.springs[2].rest_length + web.springs[3].rest_length, 400);
    assert!(matches!(spider.current_position, SpiderPosition::WEB(4, 0)));
}

#[test]
fn reusing_an_existing_edge_spins_no_silk() {
    // Both ends of the request snap onto particles already joined by an
    // edge: the agent boards that edge instead of spinning a new one.
    let mut web = edge_web(v(-2000, -300, 0), v(-1900, -300, 0), 100);
    let mut spider = Spider::new(10_000, v(-2000, -300, 0));
    let mut region = AnchorRegion::new();
    region.push_box(box_around(v(-1900, -300, 0), 50));
    let outcome = set_new_target(&mut spider, &mut web, v(100, 0, 0), &region);
    assert_eq!(outcome, NavOutcome::ExistingEdge);
    assert_eq!(web.springs.len(), 1);
    assert_eq!(web.particles.len(), 2);
    // Boards the existing edge at the snapped near end.
    assert!(matches!(spider.current_position, SpiderPosition::WEB(0, 0)));
    assert!(matches!(spider.target_position, SpiderPosition::WEB(0, _)));
}

#[test]
fn no_anchor_in_that_direction_does_nothing() {
    let start = v(-2000, -300, 0);
    let mut web = Web::new();
    web.particles.push(particle_at(start, true));
    let mut spider = Spider::new(10_000, start);
    let region = AnchorRegion::new();
    let outcome = set_new_target(&mut spider, &mut web, v(0, 500, 0), &region);
    assert_eq!(outcome, NavOutcome::NoAnchor);
    assert_eq!(web.springs.len(), 0);
    assert!(matches!(spider.current_position, SpiderPosition::TREE(_)));
}

#[test]
fn free_move_when_terrain_joins_both_points() {
    let start = v(-2000, -300, 0);
    let target = v(-2000, 200, 0);
    let mut web = Web::new();
    web.particles.push(particle_at(start, true));
    let mut spider = Spider::new(10_000, start);
    let mut region = AnchorRegion::new();
    // One large box covering the whole path: the agent walks, no silk.
    region.push_box(Aabb { min: v(-2100, -400, -100), max: v(-1900, 300, 100) });
    let outcome = set_new_target(&mut spider, &mut web, v(0, 500, 0), &region);
    assert_eq!(outcome, NavOutcome::FreeMove);
    assert_eq!(web.springs.len(), 0);
    assert!(matches!(spider.target_position, SpiderPosition::TREE(_)));
}

#[test]
fn move_spider_snaps_onto_near_target() {
    let web = edge_web(v(-2000, 0, 0), v(-1600, 0, 0), 400);
    let mut spider = Spider::new(10_000, v(-2000, 0, 0));
    spider.current_position = SpiderPosition::WEB(0, 0);
    spider.target_position = SpiderPosition::WEB(0, 20);
    // Current and target world points are 8 thousandths apart: within
    // the snap distance, so one tick lands exactly on the target.
    move_spider(&web, &mut spider, 16);
    assert!(matches!(spider.current_position, SpiderPosition::WEB(0, 20)));
}

#[test]
fn move_spider_stays_put_at_target() {
    let web = edge_web(v(-2000, 0, 0), v(-1600, 0, 0), 400);
    let mut spider = Spider::new(10_000, v(-2000, 0, 0));
    spider.current_position = SpiderPosition::WEB(0, 700);
    spider.target_position = SpiderPosition::WEB(0, 700);
    move_spider(&web, &mut spider, 16);
    assert!(matches!(spider.current_position, SpiderPosition::WEB(0, 700)));
}

#[test]
fn rotate_spider_holds_when_facing() {
    let mut spider = Spider::new(10_000, v(-2000, 0, 0));
    // Facing 0 plus the quarter-turn offset: a heading of a quarter turn
    // is already within tolerance.
    spider.current_rotation = 0;
    rotate_spider(&mut spider, 1570, 16);
    assert_eq!(spider.current_rotation, 0);
}

#[test]
fn rotate_spider_turns_toward_heading() {
    let mut spider = Spider::new(10_000, v(-2000, 0, 0));
    spider.current_rotation = 0;
    let before = spider.current_rotation;
    rotate_spider(&mut spider, 3141, 16);
    assert!(spider.current_rotation != before);
    assert!(spider.current_rotation < 6283);
}

#[test]
fn roll_flips_toward_a_nearby_insect() {
    let mut spider = Spider::new(10_000, v(-2000, 0, 0));
    spider.current_position = SpiderPosition::WEB(0, 0);
    spider.current_roll = 0;
    update_spider_roll(&mut spider, true);
    // Riding upright with an insect in reach: flip a half turn.
    assert_eq!(spider.current_roll, 3141);
    assert_eq!(spider.lerp_roll, 1570);
    // Free-roaming always rides upright.
    spider.current_position = SpiderPosition::TREE(v(-2000, 0, 0));
    update_spider_roll(&mut spider, false);
    assert_eq!(spider.current_roll, 0);
}

#[test]
fn strayed_agent_returns_to_its_perch() {
    let web = Web::new();
    let mut spider = Spider::new(10_000, v(500_000, 500_000, 0));
    spider.target_position = spider.current_position;
    assert!(reset_if_out_of_bounds(&mut spider, &web));
    assert!(matches!(spider.current_position, SpiderPosition::TREE(p) if p == v(-2000, -300, 0)));
    // Inside the playfield nothing moves.
    let mut home = Spider::new(10_000, v(-2000, -300, 0));
    assert!(!reset_if_out_of_bounds(&mut home, &web));
    assert!(matches!(home.current_position, SpiderPosition::TREE(p) if p == v(-2000, -300, 0)));
}

#[test]
fn insect_within_a_tenth_of_a_unit_counts_as_near() {
    let web = Web::new();
    let spider = Spider::new(10_000, v(-2000, -300, 0));
    assert!(insect_near(&web, &spider, v(-2050, -300, 0)));
    assert!(!insect_near(&web, &spider, v(-2150, -300, 0)));
}

#[test]
fn starve_and_feast_track_food_exactly() {
    let mut spider = Spider::new(10_000, v(-2000, 0, 0));
    let dead = spider.starve(2000);
    // 0.25 food per second over two seconds.
    assert_eq!(spider.food, 9_500);
    assert!(!dead);
    spider.feast(1_750);
    // Capped at the maximum.
    assert_eq!(spider.food, 10_000);
    spider.food = -100;
    spider.feast(1_750);
    assert_eq!(spider.food, 1_650);
}
