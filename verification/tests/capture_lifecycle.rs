//! The capture lifecycle: touch, roll up, cook, release or consume.

use silk_snare::agent::Spider;
use silk_snare::ensnare::{ensnare_enemy, update_ensnared_rotation};
use silk_snare::insect::{
    consume_insect, cook_touching_insect, generate_bezier_handles, on_leave_insect,
    on_touch_insect, tick_ensnared_insect, BezierCurve, CaptureEvent, FlyingInsect, TimerFx,
};
use silk_snare::spring::{EnsnaredEntity, Spring};
use silk_snare::vec3::Vec3Fx;
use silk_snare::web::{Particle, Web};

fn v(x: i64, y: i64, z: i64) -> Vec3Fx {
    Vec3Fx { x, y, z }
}

fn particle_at(pos: Vec3Fx, pinned: bool) -> Particle {
    Particle {
        position: pos,
        velocity: v(0, 0, 0),
        force: v(0, 0, 0),
        impulse: v(0, 0, 0),
        impulse_duration: 0,
        mass: 0,
        pinned,
    }
}

fn edge_web() -> Web {
    let mut web = Web::new();
    web.particles.push(particle_at(v(0, 0, 0), true));
    web.particles.push(particle_at(v(2000, 0, 0), true));
    web.springs.push(Spring {
        first_index: 0,
        second_index: 1,
        stiffness: 20_000,
        damping: 500,
        rest_length: 2000,
        ensnared_entities: Vec::new(),
    });
    web
}

fn fresh_fly() -> FlyingInsect {
    let path = BezierCurve::new(v(0, 0, 0), v(100, 100, 0), v(200, 100, 0), v(300, 0, 0));
    FlyingInsect::new(100, 10, path, 777)
}

#[test]
fn timer_wraps_and_reports_finish() {
    let mut t = TimerFx::new(2000);
    t.tick(1500);
    assert!(!t.just_finished);
    assert_eq!(t.elapsed, 1500);
    t.tick(700);
    assert!(t.just_finished);
    assert_eq!(t.elapsed, 200);
    t.pause();
    t.tick(2000);
    assert_eq!(t.elapsed, 200);
}

#[test]
fn ensnare_attaches_at_projected_point_and_kicks_endpoints() {
    let mut web = edge_web();
    ensnare_enemy(&mut web, 0, 42, 10, v(500, 30, 0));
    let records = &web.springs[0].ensnared_entities;
    assert_eq!(records.len(), 1);
    assert_eq!(records[0].entity, 42);
    // The impact projects a quarter of the way along the edge.
    assert_eq!(records[0].snare_position, 250);
    assert!(!records[0].done_ensnaring);
    // Both endpoints got an out-of-plane kick scaled by proximity.
    assert_eq!(web.particles[0].impulse.z, 7_500_000);
    assert_eq!(web.particles[1].impulse.z, 2_500_000);
    assert_eq!(web.particles[0].impulse_duration, 100);
}

#[test]
fn touch_pauses_freed_timer_and_joins_set_once() {
    let mut spider = Spider::new(10_000, v(-2000, 0, 0));
    let mut fly = fresh_fly();
    fly.freed_timer.unpause();
    on_touch_insect(&mut spider, &mut fly, 5);
    assert_eq!(spider.touching_insects.len(), 1);
    assert!(fly.freed_timer.paused);
    on_touch_insect(&mut spider, &mut fly, 5);
    assert_eq!(spider.touching_insects.len(), 1);
}

#[test]
fn leave_rewinds_an_incomplete_roll() {
    let mut spider = Spider::new(10_000, v(-2000, 0, 0));
    let mut fly = fresh_fly();
    on_touch_insect(&mut spider, &mut fly, 5);
    fly.snare_roll_progress = 400;
    fly.snare_timer.tick(800);
    on_leave_insect(&mut spider, &mut fly, 5);
    assert_eq!(spider.touching_insects.len(), 0);
    assert_eq!(fly.snare_roll_progress, 0);
    assert_eq!(fly.snare_timer.elapsed, 0);
    assert!(fly.snare_timer.paused);
    assert!(!fly.freed_timer.paused);
}

#[test]
fn rolling_advances_and_completes() {
    let mut fly = fresh_fly();
    // Half a second against the two-second roll timer.
    let ev = cook_touching_insect(&mut fly, 500);
    assert_eq!(ev, CaptureEvent::Stay);
    assert_eq!(fly.snare_roll_progress, 250);
    // Push the roll timer to its period: the creature is fully rolled.
    let ev1 = cook_touching_insect(&mut fly, 1000);
    assert_eq!(ev1, CaptureEvent::Stay);
    let ev2 = cook_touching_insect(&mut fly, 500);
    assert_eq!(ev2, CaptureEvent::MarkDone);
    assert!(fly.snare_timer.paused);
    assert_eq!(fly.snare_timer.elapsed, 0);
}

#[test]
fn cooked_while_touching_is_consumed_and_leaves_the_web() {
    let mut web = edge_web();
    ensnare_enemy(&mut web, 0, 9, 10, v(500, 0, 0));
    let mut spider = Spider::new(10_000, v(-2000, 0, 0));
    let mut fly = fresh_fly();
    on_touch_insect(&mut spider, &mut fly, 9);
    fly.cooking_progress = 1000;
    let ev = cook_touching_insect(&mut fly, 16);
    assert_eq!(ev, CaptureEvent::Consume);
    assert_eq!(fly.snare_roll_progress, 0);
    spider.food = 5_000;
    let feast = consume_insect(&mut web, &mut spider, 9);
    assert_eq!(feast, 1_750);
    assert_eq!(spider.food, 6_750);
    assert!(!spider.touching_insects.contains(&9));
    // Absent from the edge's attached list afterward.
    for s in &web.springs {
        for e in &s.ensnared_entities {
            assert!(e.entity != 9);
        }
    }
}

#[test]
fn freed_timer_fires_before_roll_completion_releases() {
    let mut fly = fresh_fly();
    fly.snare_roll_progress = 600;
    fly.freed_timer.elapsed = 14_900;
    let ev = tick_ensnared_insect(&mut fly, 200);
    assert_eq!(ev, CaptureEvent::Release);
    // Returns to free flight with the roll reset to zero.
    assert_eq!(fly.snare_roll_progress, 0);
    assert_eq!(fly.cooking_progress, 0);
    assert!(fly.freed_timer.paused);
    assert_eq!(fly.freed_timer.elapsed, 0);
    assert!(fly.cooking_timer.paused);
}

#[test]
fn fully_rolled_creature_cooks() {
    let mut fly = fresh_fly();
    fly.snare_roll_progress = 1000;
    let ev = tick_ensnared_insect(&mut fly, 1000);
    assert_eq!(ev, CaptureEvent::Stay);
    // One second against the five-second cooking timer.
    assert_eq!(fly.cooking_progress, 200);
    assert!(!fly.cooking_timer.paused);
}

#[test]
fn mark_done_flags_the_record_in_the_web() {
    let mut web = edge_web();
    ensnare_enemy(&mut web, 0, 3, 10, v(500, 0, 0));
    silk_snare::insect::mark_done_ensnaring(&mut web, 3);
    assert!(web.springs[0].ensnared_entities[0].done_ensnaring);
}

#[test]
fn wobble_twitches_on_high_samples_only() {
    let mut web = edge_web();
    web.springs[0].ensnared_entities.push(EnsnaredEntity {
        entity: 1,
        snare_position: 500,
        mass: 10,
        rotation: 0,
        lerp_rotation: 0,
        done_ensnaring: false,
    });
    // Low gate samples: no twitch, only the smoothing step.
    update_ensnared_rotation(&mut web, 0, 0, 100, 900, 100, 900);
    assert_eq!(web.springs[0].ensnared_entities[0].rotation, 0);
    // A frequent-twitch gate over 0.6: rotation moves by 314*(turn-500)/1000.
    update_ensnared_rotation(&mut web, 0, 0, 700, 700, 100, 900);
    assert_eq!(web.springs[0].ensnared_entities[0].rotation, 62);
    assert_eq!(web.springs[0].ensnared_entities[0].lerp_rotation, 31);
    // A low turn sample twists the other way.
    update_ensnared_rotation(&mut web, 0, 0, 700, 100, 100, 900);
    assert_eq!(web.springs[0].ensnared_entities[0].rotation, 62 - 125);
    // A fully rolled record no longer wobbles.
    web.springs[0].ensnared_entities[0].done_ensnaring = true;
    update_ensnared_rotation(&mut web, 0, 0, 999, 999, 999, 999);
    assert_eq!(web.springs[0].ensnared_entities[0].rotation, 62 - 125);
}

#[test]
fn bezier_handles_sample_the_box_and_sort_by_depth() {
    // Draws at the extremes land on the box corners spanned by the two
    // endpoints, and the pair comes back nearer-in-depth first.
    let (h1, h2) = generate_bezier_handles(
        v(0, 0, 0),
        v(1000, 1000, 1000),
        v(0, 0, 1000),
        v(1000, 1000, 0),
    );
    assert_eq!(h1, v(1000, 1000, 0));
    assert_eq!(h2, v(0, 0, 1000));
    // A mid draw lands mid-span, whatever the endpoint order.
    let (g1, _) = generate_bezier_handles(
        v(1000, 0, 0),
        v(0, 1000, 0),
        v(500, 500, 0),
        v(1000, 1000, 1000),
    );
    assert_eq!(g1, v(500, 500, 0));
}

#[test]
fn flight_follows_the_path_and_despawns_at_the_end() {
    let mut fly = fresh_fly();
    // at(0) is exactly the start of the path.
    let p = fly.flight_position(0);
    assert_eq!(p, v(0, 0, 0));
    assert!(!fly.tick_flight(2000));
    // speed 0.1 over 2 s: progress 0.2.
    assert_eq!(fly.progress, 200);
    let mid = fly.path.at(fly.progress);
    assert_eq!(fly.flight_position(10), v(mid.x, mid.y + 10, mid.z));
    // Flying past the end of the path despawns.
    fly.progress = 990;
    assert!(fly.tick_flight(2000));
}
